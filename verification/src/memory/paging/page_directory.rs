//! The page directory and the page tables it references.
//!
//! The kernel reaches the page table of directory entry `i` through the
//! recursive mapping of the last directory entry. Here that memory is held
//! by the directory itself: `tables[i]` is what the recursive mapping shows
//! for entry `i`. The frame bitmap is handed in by the caller.

use vstd::prelude::*;

use crate::memory::paging::bitmap::{
    page_of, claimed_after, first_fit, first_free, frame_addr, is_first_fit, lemma_first_free_unique,
    lowest_free, nth_free, run_free, with_run, Bitmaps, PAGE_NUMBER,
};
use crate::memory::paging::page_table::{bit, frame_entry, init_entry, lemma_bit_u32, present, PageTable, PageTableEntry};
use crate::memory::paging::PAGE_PRESENT;
use crate::memory::{PhysAddr, VirtAddr};

verus! {

/// Index of the first directory entry of the kernel half (`0xc0000000 >> 22`).
pub const KERNEL_PD_INDEX: usize = 768;

/// Virtual address of entry `j` of page table `i`.
pub open spec fn vaddr_of(i: int, j: int) -> int {
    i * 0x400000 + j * 0x1000
}

/// The virtual address mapped by entry `pt_index` of page table `pd_index`.
pub fn get_vaddr(pd_index: usize, pt_index: usize) -> (res: VirtAddr)
    requires
        pd_index < 1024,
        pt_index < 1024,
    ensures
        res == vaddr_of(pd_index as int, pt_index as int),
{
    assert(((pd_index << 22usize) | (pt_index << 12usize)) == pd_index * 0x400000usize + pt_index
        * 0x1000usize) by (bit_vector)
        requires
            pd_index < 1024usize,
            pt_index < 1024usize,
    ;
    ((pd_index << 22usize) | (pt_index << 12usize)) as VirtAddr
}

/// A table whose 1024 entries are zero.
pub open spec fn zero_table() -> Seq<u32> {
    Seq::new(1024, |i: int| 0u32)
}

/// Physical address held by a directory entry (see `get_paddr`).
pub open spec fn pde_paddr(v: u32) -> u32 {
    if bit(v, 7) == 0 {
        v & 0xfffff000u32
    } else {
        ((v & 0xfff00000u32) >> 10u32) | ((v & 0b111111110000000000000u32) << 19u32)
    }
}

/// `i` is the first directory entry that is not present.
pub open spec fn first_absent(pdes: Seq<u32>, i: int) -> bool {
    &&& 0 <= i < 1024
    &&& !present(pdes[i])
    &&& forall|k: int| 0 <= k < i ==> present(#[trigger] pdes[k])
}

/// Directory entries `i .. i + nb` are not present and `i + nb` is below 1024.
pub open spec fn absent_run(pdes: Seq<u32>, i: int, nb: int) -> bool {
    &&& 0 <= i
    &&& i + nb < 1024
    &&& forall|k: int| i <= k < i + nb ==> !present(#[trigger] pdes[k])
}

/// `i` is where `claim_page_tables` puts `nb` new tables.
pub open spec fn tables_start(pdes: Seq<u32>, nb: int, i: int) -> bool {
    if nb == 1 {
        first_absent(pdes, i)
    } else {
        &&& absent_run(pdes, i, nb)
        &&& forall|i2: int| 0 <= i2 < i ==> !#[trigger] absent_run(pdes, i2, nb)
    }
}

/// Room for `nb` new tables exists.
pub open spec fn tables_fit(pdes: Seq<u32>, nb: int) -> bool {
    exists|i: int| tables_start(pdes, nb, i)
}

/// Directory entries `index .. index + nb` take the frames of `nb`
/// successive claims of the lowest free frame of `used`, with `flags`.
pub open spec fn pdes_with_tables(pdes: Seq<u32>, index: int, nb: int, used: Set<int>, flags: u32) -> Seq<u32> {
    Seq::new(
        pdes.len(),
        |i: int|
            if index <= i < index + nb {
                frame_entry(frame_addr(nth_free(used, (i - index) as nat)) as u32, flags)
            } else {
                pdes[i]
            },
    )
}

/// Tables `index .. index + nb` cleared.
pub open spec fn tables_cleared(tables: Seq<Seq<u32>>, index: int, nb: int) -> Seq<Seq<u32>> {
    Seq::new(tables.len(), |i: int| if index <= i < index + nb { zero_table() } else { tables[i] })
}

/// The `nb` table entries from flat index `base` (entry `l` being entry
/// `l % 1024` of table `l / 1024`) map frame `frame(k)` for the `k`-th of
/// them, with `flags`.
pub open spec fn map_entries(
    tables: Seq<Seq<u32>>,
    base: int,
    nb: int,
    frame: spec_fn(int) -> int,
    flags: u32,
) -> Seq<Seq<u32>> {
    Seq::new(
        tables.len(),
        |i: int|
            Seq::new(
                tables[i].len(),
                |j: int|
                    if base <= i * 1024 + j < base + nb {
                        frame_entry(frame_addr(frame(i * 1024 + j - base)) as u32, flags)
                    } else {
                        tables[i][j]
                    },
            ),
    )
}

/// Frames of successive claims of the lowest free frame of `used`.
pub open spec fn successive(used: Set<int>) -> spec_fn(int) -> int {
    |k: int| nth_free(used, k as nat)
}

/// Frames `p .. p + nb`, in order.
pub open spec fn contiguous(p: int) -> spec_fn(int) -> int {
    |k: int| p + k
}

pub proof fn lemma_flat_unique(a: int, b: int, c: int, d: int)
    requires
        0 <= b < 1024,
        0 <= d < 1024,
        a * 1024 + b == c * 1024 + d,
    ensures
        a == c,
        b == d,
{
    assert(a == c && b == d) by (nonlinear_arith)
        requires
            0 <= b < 1024,
            0 <= d < 1024,
            a * 1024 + b == c * 1024 + d,
    ;
}

/// Facts on successive claims: each is the lowest free frame at its turn
/// and adds one frame.
pub proof fn lemma_claimed_after_step(used: Set<int>, k: nat, p: int)
    requires
        lowest_free(claimed_after(used, k), p),
        claimed_after(used, k).finite(),
    ensures
        nth_free(used, k) == p,
        claimed_after(used, k + 1) == claimed_after(used, k).insert(p),
        claimed_after(used, k + 1).len() == claimed_after(used, k).len() + 1,
        claimed_after(used, k + 1).finite(),
{
    lemma_first_free_unique(claimed_after(used, k), p);
    assert(claimed_after(used, (k + 1) as nat) == claimed_after(used, k).insert(first_free(claimed_after(used, k))));
}

/// Flat table entry `l` (entry `l % 1024` of table `l / 1024`) can take a
/// new frame: its table is present and the entry is not.
pub open spec fn usable(v: (Seq<u32>, Seq<Seq<u32>>), l: int) -> bool {
    present(v.0[l / 1024]) && !present(v.1[l / 1024][l % 1024])
}

/// Flat table entries `l .. l + nb` can all take a new frame.
pub open spec fn run_usable(v: (Seq<u32>, Seq<Seq<u32>>), l: int, nb: int) -> bool {
    forall|m: int| l <= m < l + nb ==> #[trigger] usable(v, m)
}

/// Last flat table entry that may take a frame, plus one: the table of the
/// last directory entry is the directory itself.
pub open spec fn slot_end() -> int {
    1047552int
}

/// `l` starts the first run of `nb` usable flat entries from `from` on.
pub open spec fn first_run(v: (Seq<u32>, Seq<Seq<u32>>), from: int, nb: int, l: int) -> bool {
    &&& from <= l
    &&& l + nb <= slot_end()
    &&& run_usable(v, l, nb)
    &&& forall|l2: int| from <= l2 < l ==> !#[trigger] run_usable(v, l2, nb)
}

/// No run of `nb` usable flat entries starts at `from` or after.
pub open spec fn no_run(v: (Seq<u32>, Seq<Seq<u32>>), from: int, nb: int) -> bool {
    forall|l2: int| from <= l2 && l2 + nb <= slot_end() ==> !#[trigger] run_usable(v, l2, nb)
}

pub proof fn lemma_flat_split(i: int, j: int)
    requires
        0 <= j < 1024,
    ensures
        (i * 1024 + j) / 1024 == i,
        (i * 1024 + j) % 1024 == j,
{
    vstd::arithmetic::div_mod::lemma_fundamental_div_mod_converse(i * 1024 + j, 1024, i, j);
}

/// Index of the directory entry and of the table entry of `vaddr`.
pub open spec fn pd_of(vaddr: VirtAddr) -> int {
    vaddr as int / 0x400000
}

pub open spec fn pt_of(vaddr: VirtAddr) -> int {
    (vaddr as int % 0x400000) / 0x1000
}

/// Successive claims from a set that holds no page beyond the bitmap
/// add one frame each, while frames remain.
pub proof fn lemma_claimed_after_len(used: Set<int>, n: nat)
    requires
        used.finite(),
        forall|p: int| #[trigger] used.contains(p) ==> 0 <= p < PAGE_NUMBER,
        used.len() + n <= PAGE_NUMBER,
    ensures
        claimed_after(used, n).finite(),
        claimed_after(used, n).len() == used.len() + n,
        forall|p: int| #[trigger] claimed_after(used, n).contains(p) ==> 0 <= p < PAGE_NUMBER,
    decreases n,
{
    if n > 0 {
        let m = (n - 1) as nat;
        lemma_claimed_after_len(used, m);
        let s = claimed_after(used, m);
        lemma_lowest_free_exists(s);
        let p = choose|p: int| lowest_free(s, p);
        lemma_first_free_unique(s, p);
    }
}

/// A set of frames that is not all of them has a lowest free frame.
pub proof fn lemma_lowest_free_exists(used: Set<int>)
    requires
        used.finite(),
        forall|p: int| #[trigger] used.contains(p) ==> 0 <= p < PAGE_NUMBER,
        used.len() < PAGE_NUMBER,
    ensures
        exists|p: int| lowest_free(used, p),
{
    vstd::set_lib::lemma_int_range(0, PAGE_NUMBER as int);
    if forall|q: int| 0 <= q < PAGE_NUMBER ==> #[trigger] used.contains(q) {
        assert(vstd::set_lib::set_int_range(0, PAGE_NUMBER as int).subset_of(used));
        vstd::set_lib::lemma_len_subset(vstd::set_lib::set_int_range(0, PAGE_NUMBER as int), used);
    } else {
        let q = choose|q: int| 0 <= q < PAGE_NUMBER && !used.contains(q);
        lemma_lowest_below(used, q);
    }
}

proof fn lemma_lowest_below(used: Set<int>, q: int)
    requires
        0 <= q < PAGE_NUMBER,
        !used.contains(q),
    ensures
        exists|p: int| lowest_free(used, p),
    decreases q,
{
    if forall|r: int| 0 <= r < q ==> #[trigger] used.contains(r) {
        assert(lowest_free(used, q));
    } else {
        let r = choose|r: int| 0 <= r < q && !used.contains(r);
        lemma_lowest_below(used, r);
    }
}

pub proof fn lemma_vaddr_split(vaddr: VirtAddr)
    ensures
        (vaddr >> 22u32) as int == pd_of(vaddr),
        ((vaddr & 0x3ff000u32) >> 12u32) as int == pt_of(vaddr),
        0 <= pd_of(vaddr) < 1024,
        0 <= pt_of(vaddr) < 1024,
{
    lemma_vaddr_bits(vaddr);
}

/// The bit fields of a virtual address as quotients and remainders.
pub proof fn lemma_vaddr_bits(vaddr: VirtAddr)
    by (bit_vector)
    ensures
        (vaddr >> 22u32) == vaddr / 0x400000u32,
        ((vaddr & 0x3ff000u32) >> 12u32) == (vaddr % 0x400000u32) / 0x1000u32,
        (vaddr & 0xfffu32 != 0u32) == (vaddr % 4096 != 0),
{
}

/// Directory view and used frames after `remove_page_frame(vaddr)`.
pub open spec fn after_remove(v: (Seq<u32>, Seq<Seq<u32>>), used: Set<int>, vaddr: VirtAddr) -> ((Seq<u32>, Seq<Seq<u32>>), Set<int>) {
    if vaddr % 4096 != 0 {
        (v, used)
    } else {
        let pd = pd_of(vaddr);
        let pt = pt_of(vaddr);
        let table = v.1[pd].update(pt, 0u32);
        let emptied = table == zero_table();
        let pdes = if emptied { v.0.update(pd, 0u32) } else { v.0 };
        let used1 = if emptied { used.remove(page_of(pde_paddr(v.0[pd]))) } else { used };
        ((pdes, v.1.update(pd, table)), used1.remove(page_of(v.1[pd][pt] & 0xfffff000u32)))
    }
}

/// Directory view and used frames after `k` pages from `vaddr` on have
/// been removed, one after the other.
pub open spec fn after_removes(v: (Seq<u32>, Seq<Seq<u32>>), used: Set<int>, vaddr: VirtAddr, k: nat) -> ((Seq<u32>, Seq<Seq<u32>>), Set<int>)
    decreases k,
{
    if k == 0 {
        (v, used)
    } else {
        let prev = after_removes(v, used, vaddr, (k - 1) as nat);
        after_remove(prev.0, prev.1, (vaddr + (k - 1) * 4096) as VirtAddr)
    }
}

/// The page tables of the `nb` pages from `vaddr` on are present, each at
/// its turn.
pub open spec fn removes_ok(v: (Seq<u32>, Seq<Seq<u32>>), used: Set<int>, vaddr: VirtAddr, nb: nat) -> bool {
    forall|k: nat| k < nb ==> #[trigger] present(after_removes(v, used, vaddr, k).0.0[pd_of((vaddr + k * 4096) as VirtAddr)])
}

proof fn lemma_entry_frame(p: u32, flags: u32)
    by (bit_vector)
    requires
        p & 0xfffu32 == 0,
        flags < 0x1000,
    ensures
        (p | flags | 1u32) & 0xfffff000u32 == p,
{
}

/// The frames of the first `k` of successive claims from `used`.
pub open spec fn first_frames(used: Set<int>, k: int) -> Set<int> {
    Set::new(|q: int| exists|m: int| 0 <= m < k && q == #[trigger] nth_free(used, m as nat))
}

/// Successive claims add their frames to `used`, and none of them was in
/// `used`.
proof fn lemma_claimed_after_frames(used: Set<int>, n: nat)
    requires
        used.finite(),
        forall|p: int| #[trigger] used.contains(p) ==> 0 <= p < PAGE_NUMBER,
        used.len() + n <= PAGE_NUMBER,
    ensures
        claimed_after(used, n) == used.union(first_frames(used, n as int)),
        used.disjoint(first_frames(used, n as int)),
    decreases n,
{
    if n > 0 {
        let m = (n - 1) as nat;
        lemma_claimed_after_frames(used, m);
        lemma_claimed_after_len(used, m);
        let s = claimed_after(used, m);
        lemma_lowest_free_exists(s);
        let p = choose|p: int| lowest_free(s, p);
        lemma_first_free_unique(s, p);
        assert(nth_free(used, m) == p);
        assert(first_frames(used, n as int) =~= first_frames(used, m as int).insert(p)) by {
            assert forall|q: int| first_frames(used, n as int).contains(q) implies first_frames(used, m as int).insert(
                p,
            ).contains(q) by {
                let w = choose|w: int| 0 <= w < n && q == #[trigger] nth_free(used, w as nat);
                if w < m {
                    assert(first_frames(used, m as int).contains(q));
                }
            }
            assert forall|q: int| first_frames(used, m as int).insert(p).contains(q) implies first_frames(
                used,
                n as int,
            ).contains(q) by {
                if q != p {
                    let w = choose|w: int| 0 <= w < m && q == #[trigger] nth_free(used, w as nat);
                    assert(0 <= w < n && q == nth_free(used, w as nat));
                } else {
                    assert(0 <= m < n && q == nth_free(used, m));
                }
            }
        }
        assert(claimed_after(used, n) =~= used.union(first_frames(used, n as int)));
        assert(!used.contains(p)) by {
            assert(s.contains(p) || !used.contains(p));
        }
    }
}

/// The directory after the first `k` pages of a run of `nb` frames mapped
/// at flat entry `l` have been removed again.
pub open spec fn run_left(ov: (Seq<u32>, Seq<Seq<u32>>), used: Set<int>, l: int, nb: int, k: int, flags: u32) -> Seq<Seq<u32>> {
    map_entries(ov.1, l + k, nb - k, |m: int| successive(used)(m + k), flags)
}

/// What `lemma_remove_undoes_get_frames` asks of the run of `nb` frames
/// mapped at flat entry `l`.
pub open spec fn undo_pre(
    ov: (Seq<u32>, Seq<Seq<u32>>),
    ou: Set<int>,
    l: int,
    nb: nat,
    flags: u32,
    nv: (Seq<u32>, Seq<Seq<u32>>),
    nu: Set<int>,
) -> bool {
    &&& dir_shape(ov)
    &&& ou.finite()
    &&& forall|q: int| #[trigger] ou.contains(q) ==> 0 <= q < PAGE_NUMBER
    &&& ou.len() + nb <= PAGE_NUMBER
    &&& flags < 0x1000
    &&& first_run(ov, 0, nb as int, l)
    &&& forall|m: int|
        l <= m < l + nb ==> #[trigger] ov.1[m / 1024][m % 1024] == 0 && exists|w: int|
            0 <= w < 1024 && !(l <= (m / 1024) * 1024 + w < l + nb) && #[trigger] ov.1[m / 1024][w] != 0
    &&& nu == claimed_after(ou, nb)
    &&& nv.0 == ov.0
    &&& nv.1 == map_entries(ov.1, l, nb as int, successive(ou), flags)
}

/// Removing the page of the `k`-th entry of the run takes the directory
/// and the used frames one step back.
proof fn lemma_undo_step(
    ov: (Seq<u32>, Seq<Seq<u32>>),
    ou: Set<int>,
    l: int,
    nb: nat,
    flags: u32,
    nv: (Seq<u32>, Seq<Seq<u32>>),
    nu: Set<int>,
    k: nat,
)
    requires
        undo_pre(ov, ou, l, nb, flags, nv, nu),
        k < nb,
    ensures
        after_remove(
            (ov.0, run_left(ov, ou, l, nb as int, k as int, flags)),
            nu.difference(first_frames(ou, k as int)),
            (vaddr_of(l / 1024, l % 1024) + k * 4096) as VirtAddr,
        ) == ((ov.0, run_left(ov, ou, l, nb as int, k + 1 as int, flags)), nu.difference(first_frames(ou, k + 1 as int))),
{
    let m = l + k;
    let i = m / 1024;
    let j = m % 1024;
    assert(ov.1[m / 1024][m % 1024] == 0);
    assert(0 <= l && l + nb <= slot_end());
    assert(0 <= i < 1023 && 0 <= j < 1024);
    assert(i * 1024 + j == m);
    let va = (vaddr_of(l / 1024, l % 1024) + k * 4096) as VirtAddr;
    assert(vaddr_of(l / 1024, l % 1024) + k * 4096 == m * 4096);
    assert(m * 4096 <= u32::MAX) by (nonlinear_arith)
        requires
            0 <= m < slot_end(),
    ;
    assert(va as int == i * 0x400000 + j * 0x1000);
    assert(va % 4096 == 0) by (nonlinear_arith)
        requires
            va as int == i * 0x400000 + j * 0x1000,
    ;
    assert(pd_of(va) == i && pt_of(va) == j) by (nonlinear_arith)
        requires
            va as int == i * 0x400000 + j * 0x1000,
            0 <= i < 1023,
            0 <= j < 1024,
    ;
    lemma_claimed_after_len(ou, k);
    lemma_lowest_free_exists(claimed_after(ou, k));
    let p0 = choose|p: int| lowest_free(claimed_after(ou, k), p);
    lemma_first_free_unique(claimed_after(ou, k), p0);
    let p = nth_free(ou, k);
    assert(p == p0 && 0 <= p < PAGE_NUMBER);
    let paddr = frame_addr(p) as u32;
    assert(frame_addr(p) < 0x1_0000_0000) by (nonlinear_arith)
        requires
            0 <= p < PAGE_NUMBER,
            frame_addr(p) == p * 4096,
    ;
    assert(paddr & 0xfffu32 == 0) by {
        assert(paddr as int == p * 4096);
        assert(paddr % 4096 == 0) by (nonlinear_arith)
            requires
                paddr as int == p * 4096,
        ;
        lemma_vaddr_bits(paddr);
    }
    lemma_entry_frame(paddr, flags);
    let cur = run_left(ov, ou, l, nb as int, k as int, flags);
    let next = run_left(ov, ou, l, nb as int, k + 1 as int, flags);
    assert(successive(ou)(k as int) == p);
    assert(cur[i][j] == frame_entry(paddr, flags));
    assert(page_of(paddr) == p) by (nonlinear_arith)
        requires
            paddr as int == p * 4096,
    ;
    let table = cur[i].update(j, 0u32);
    assert(table =~= next[i]) by {
        assert forall|b: int| 0 <= b < 1024 implies table[b] == next[i][b] by {
            if b != j {
                if l + k <= i * 1024 + b < l + nb {
                    assert(successive(ou)(i * 1024 + b - (l + k) + k) == successive(ou)(
                        (i * 1024 + b - (l + k + 1)) + (k + 1),
                    ));
                }
            } else {
                assert(ov.1[m / 1024][m % 1024] == 0);
            }
        }
    }
    let w = choose|w: int| 0 <= w < 1024 && !(l <= (m / 1024) * 1024 + w < l + nb) && #[trigger] ov.1[m / 1024][w] != 0;
    assert(table != zero_table()) by {
        assert(next[i][w] == ov.1[i][w]);
        assert(table[w] != zero_table()[w]);
    }
    assert(cur.update(i, table) =~= next) by {
        assert forall|a: int| 0 <= a < cur.len() && a != i implies cur[a] == next[a] by {
            assert(cur[a] =~= next[a]) by {
                assert forall|b: int| 0 <= b < cur[a].len() implies cur[a][b] == next[a][b] by {
                    if l + k <= a * 1024 + b < l + nb {
                        if a * 1024 + b == l + k {
                            lemma_flat_unique(a, b, i, j);
                        }
                        assert(successive(ou)(a * 1024 + b - (l + k) + k) == successive(ou)(
                            (a * 1024 + b - (l + k + 1)) + (k + 1),
                        ));
                    }
                }
            }
        }
    }
    assert(nu.difference(first_frames(ou, k as int)).remove(p) =~= nu.difference(first_frames(ou, k + 1 as int))) by {
        assert forall|q: int| first_frames(ou, k + 1 as int).contains(q) <==> (first_frames(ou, k as int).contains(q) || q == p) by {
            if first_frames(ou, k + 1 as int).contains(q) {
                let w2 = choose|w2: int| 0 <= w2 < k + 1 && q == #[trigger] nth_free(ou, w2 as nat);
                if w2 < k {
                    assert(first_frames(ou, k as int).contains(q));
                }
            }
            if first_frames(ou, k as int).contains(q) {
                let w2 = choose|w2: int| 0 <= w2 < k && q == #[trigger] nth_free(ou, w2 as nat);
                assert(0 <= w2 < k + 1);
            }
            if q == p {
                assert(0 <= k < k + 1 && q == nth_free(ou, k));
            }
        }
    }
}

/// The first `k` removals take the directory and the used frames `k` steps
/// back.
proof fn lemma_undo_prefix(
    ov: (Seq<u32>, Seq<Seq<u32>>),
    ou: Set<int>,
    l: int,
    nb: nat,
    flags: u32,
    nv: (Seq<u32>, Seq<Seq<u32>>),
    nu: Set<int>,
    k: nat,
)
    requires
        undo_pre(ov, ou, l, nb, flags, nv, nu),
        k <= nb,
    ensures
        after_removes(nv, nu, vaddr_of(l / 1024, l % 1024) as VirtAddr, k) == (
            (ov.0, run_left(ov, ou, l, nb as int, k as int, flags)),
            nu.difference(first_frames(ou, k as int)),
        ),
    decreases k,
{
    assert(0 <= l && l + nb <= slot_end());
    assert(vaddr_of(l / 1024, l % 1024) == l * 4096);
    assert(l * 4096 <= u32::MAX) by (nonlinear_arith)
        requires
            0 <= l <= slot_end(),
    ;
    let va = vaddr_of(l / 1024, l % 1024) as VirtAddr;
    if k == 0 {
        assert(run_left(ov, ou, l, nb as int, 0, flags) =~= nv.1) by {
            assert forall|a: int| 0 <= a < nv.1.len() implies #[trigger] run_left(ov, ou, l, nb as int, 0, flags)[a]
                =~= nv.1[a] by {
                assert forall|b: int| 0 <= b < nv.1[a].len() implies run_left(ov, ou, l, nb as int, 0, flags)[a][b]
                    == nv.1[a][b] by {
                    if l <= a * 1024 + b < l + nb {
                        assert(successive(ou)(a * 1024 + b - l + 0) == successive(ou)(a * 1024 + b - l));
                    }
                }
            }
        }
        assert(nu.difference(first_frames(ou, 0)) =~= nu);
        assert(nv == (nv.0, nv.1));
    } else {
        lemma_undo_prefix(ov, ou, l, nb, flags, nv, nu, (k - 1) as nat);
        lemma_undo_step(ov, ou, l, nb, flags, nv, nu, (k - 1) as nat);
        assert((va + (k - 1) * 4096) as VirtAddr == (vaddr_of(l / 1024, l % 1024) + (k - 1) * 4096) as VirtAddr);
    }
}

/// Taking `nb` frames for table entries `l ..` (through present tables
/// that each map a page outside the run) and then removing the `nb` pages
/// mapped there gives back the directory and the used frames as they
/// were, when those entries held 0 and the flags fit in the low twelve
/// bits: what `get_page_frames` maps through present tables,
/// `remove_page_frames` undoes.
pub proof fn lemma_remove_undoes_get_frames(
    ov: (Seq<u32>, Seq<Seq<u32>>),
    ou: Set<int>,
    l: int,
    nb: nat,
    flags: u32,
    nv: (Seq<u32>, Seq<Seq<u32>>),
    nu: Set<int>,
)
    requires
        undo_pre(ov, ou, l, nb, flags, nv, nu),
    ensures
        after_removes(nv, nu, vaddr_of(l / 1024, l % 1024) as VirtAddr, nb) == (ov, ou),
{
    lemma_undo_prefix(ov, ou, l, nb, flags, nv, nu, nb);
    lemma_claimed_after_frames(ou, nb);
    assert(run_left(ov, ou, l, nb as int, nb as int, flags) =~= ov.1) by {
        assert forall|a: int| 0 <= a < ov.1.len() implies #[trigger] run_left(ov, ou, l, nb as int, nb as int, flags)[a]
            =~= ov.1[a] by {
        }
    }
    assert(nu.difference(first_frames(ou, nb as int)) =~= ou);
}

/// When `get_page_frames` may be called: what the directory and the number
/// of free frames must allow.
pub open spec fn frames_pre(v: (Seq<u32>, Seq<Seq<u32>>), free: int, nb: usize) -> bool {
    &&& (
        nb > 0 ==> (free >= nb && !no_run(v, 0, nb as int)) || (
        free >= nb + nb / 1024 + 1 && tables_fit(v.0, nb / 1024 + 1))
    )
}

/// When `kget_page_frames` may be called: what the directory and the number
/// of free frames must allow.
pub open spec fn kframes_pre(v: (Seq<u32>, Seq<Seq<u32>>), free: int, nb: usize) -> bool {
    &&& (
        nb > 0 ==> !no_run(v, KERNEL_PD_INDEX * 1024, nb as int) || (free
            >= nb / 1024 + 1 && tables_fit(v.0, nb / 1024 + 1))
    )
}

/// When `get_page_frames_at_addr` may be called: what the directory and the number
/// of free frames must allow.
pub open spec fn frames_at_pre(v: (Seq<u32>, Seq<Seq<u32>>), free: int, vaddr: VirtAddr, nb: usize) -> bool {
    &&& (
        pd_of(vaddr) * 1024 + pt_of(vaddr) + nb <= 1024 * 1024
    )
    &&& (
        present(v.0[pd_of(vaddr)]) ==> free >= nb
    )
    &&& (
        !present(v.0[pd_of(vaddr)]) ==> pd_of(vaddr) + nb / 1024 + 1 <= 1024 && free >= nb + nb / 1024 + 1
    )
}

/// When `kget_page_frames_at_addr` may be called: what the directory and the number
/// of free frames must allow.
pub open spec fn kframes_at_pre(v: (Seq<u32>, Seq<Seq<u32>>), free: int, vaddr: VirtAddr, nb: usize) -> bool {
    &&& (
        pd_of(vaddr) * 1024 + pt_of(vaddr) + nb <= 1024 * 1024
    )
    &&& (
        !present(v.0[pd_of(vaddr)]) ==> pd_of(vaddr) + nb / 1024 + 1 <= 1024 && free >= nb / 1024 + 1
    )
}

/// What `get_page_frames` does to the directory, its tables and the used frames,
/// and what it returns.
pub open spec fn frames_outcome(ov: (Seq<u32>, Seq<Seq<u32>>), ou: Set<int>, nb: usize, flags: u32, nv: (Seq<u32>, Seq<Seq<u32>>), nu: Set<int>, res: Result<VirtAddr, ()>) -> bool {
    &&& (
        match res {
            Ok(va) => {
                ||| exists|l: int| {
                    &&& #[trigger] first_run(ov, 0, nb as int, l)
                    &&& va == vaddr_of(l / 1024, l % 1024)
                    &&& nu == claimed_after(ou, nb as nat)
                    &&& nv.0 == ov.0
                    &&& nv.1 == map_entries(ov.1, l, nb as int, successive(ou), flags)
                }
                ||| exists|k: int| {
                    let t = nb / 1024 + 1;
                    let after = claimed_after(ou, t as nat);
                    &&& no_run(ov, 0, nb as int)
                    &&& #[trigger] tables_start(ov.0, (nb / 1024 + 1) as int, k)
                    &&& va == vaddr_of(k, 0)
                    &&& nu == claimed_after(after, nb as nat)
                    &&& nv.0 == pdes_with_tables(ov.0, k, t as int, ou, flags)
                    &&& nv.1 == map_entries(tables_cleared(ov.1, k, t as int), k * 1024, nb as int, successive(after), flags)
                }
            },
            Err(_) => nb == 0 && nv == ov && nu == ou,
        }
    )
}

/// What `kget_page_frames` does to the directory, its tables and the used frames,
/// and what it returns.
pub open spec fn kframes_outcome(ov: (Seq<u32>, Seq<Seq<u32>>), ou: Set<int>, nb: usize, flags: u32, nv: (Seq<u32>, Seq<Seq<u32>>), nu: Set<int>, res: Result<VirtAddr, ()>) -> bool {
    &&& (
        match res {
            Ok(va) => {
                ||| exists|l: int| {
                    let p = first_fit(ou, nb as int);
                    &&& #[trigger] first_run(ov, KERNEL_PD_INDEX * 1024, nb as int, l)
                    &&& va == vaddr_of(l / 1024, l % 1024)
                    &&& is_first_fit(ou, nb as int, p)
                    &&& nu == with_run(ou, p, nb as int)
                    &&& nv.0 == ov.0
                    &&& nv.1 == map_entries(ov.1, l, nb as int, contiguous(p), flags)
                }
                ||| exists|k: int| {
                    let t = nb / 1024 + 1;
                    let after = claimed_after(ou, t as nat);
                    let p = first_fit(after, nb as int);
                    &&& no_run(ov, KERNEL_PD_INDEX * 1024, nb as int)
                    &&& #[trigger] tables_start(ov.0, (nb / 1024 + 1) as int, k)
                    &&& va == vaddr_of(k, 0)
                    &&& is_first_fit(after, nb as int, p)
                    &&& nu == with_run(after, p, nb as int)
                    &&& nv.0 == pdes_with_tables(ov.0, k, t as int, ou, flags)
                    &&& nv.1 == map_entries(tables_cleared(ov.1, k, t as int), k * 1024, nb as int, contiguous(p), flags)
                }
            },
            Err(_) => {
                ||| nb == 0 && nv == ov && nu == ou
                ||| {
                    &&& !no_run(ov, KERNEL_PD_INDEX * 1024, nb as int)
                    &&& nv == ov
                    &&& nu == ou
                    &&& forall|p2: int| 0 <= p2 && p2 + nb <= PAGE_NUMBER ==> !#[trigger] run_free(ou, p2, nb as int)
                }
                ||| exists|k: int| {
                    let t = nb / 1024 + 1;
                    let after = claimed_after(ou, t as nat);
                    &&& no_run(ov, KERNEL_PD_INDEX * 1024, nb as int)
                    &&& #[trigger] tables_start(ov.0, (nb / 1024 + 1) as int, k)
                    &&& nu == after
                    &&& nv.0 == pdes_with_tables(ov.0, k, t as int, ou, flags)
                    &&& nv.1 == tables_cleared(ov.1, k, t as int)
                    &&& forall|p2: int| 0 <= p2 && p2 + nb <= PAGE_NUMBER ==> !#[trigger] run_free(after, p2, nb as int)
                }
            },
        }
    )
}

/// What `get_page_frames_at_addr` does to the directory, its tables and the used frames,
/// and what it returns.
pub open spec fn frames_at_outcome(ov: (Seq<u32>, Seq<Seq<u32>>), ou: Set<int>, vaddr: VirtAddr, nb: usize, flags: u32, nv: (Seq<u32>, Seq<Seq<u32>>), nu: Set<int>, res: Result<VirtAddr, ()>) -> bool {
    &&& (
        res == Ok::<VirtAddr, ()>(vaddr)
    )
    &&& (
        present(ov.0[pd_of(vaddr)]) ==> {
            &&& nu == claimed_after(ou, nb as nat)
            &&& nv.0 == ov.0
            &&& nv.1 == map_entries(ov.1, pd_of(vaddr) * 1024 + pt_of(vaddr), nb as int, successive(ou), flags)
        }
    )
    &&& (
        !present(ov.0[pd_of(vaddr)]) ==> {
            let t = nb / 1024 + 1;
            let after = claimed_after(ou, t as nat);
            &&& nu == claimed_after(after, nb as nat)
            &&& nv.0 == pdes_with_tables(ov.0, pd_of(vaddr), t as int, ou, flags)
            &&& nv.1 == map_entries(tables_cleared(ov.1, pd_of(vaddr), t as int), pd_of(vaddr) * 1024 + pt_of(vaddr), nb as int, successive(after), flags)
        }
    )
}

/// What `kget_page_frames_at_addr` does to the directory, its tables and the used frames,
/// and what it returns.
pub open spec fn kframes_at_outcome(ov: (Seq<u32>, Seq<Seq<u32>>), ou: Set<int>, vaddr: VirtAddr, nb: usize, flags: u32, nv: (Seq<u32>, Seq<Seq<u32>>), nu: Set<int>, res: Result<VirtAddr, ()>) -> bool {
    &&& (
        ({
            let t = nb / 1024 + 1;
            let tables_done = !present(ov.0[pd_of(vaddr)]);
            let after = if tables_done { claimed_after(ou, t as nat) } else { ou };
            let pdes = if tables_done { pdes_with_tables(ov.0, pd_of(vaddr), t as int, ou, flags) } else { ov.0 };
            let tables = if tables_done { tables_cleared(ov.1, pd_of(vaddr), t as int) } else { ov.1 };
            let p = first_fit(after, nb as int);
            match res {
                Ok(va) => {
                    &&& va == vaddr
                    &&& is_first_fit(after, nb as int, p)
                    &&& nu == with_run(after, p, nb as int)
                    &&& nv.0 == pdes
                    &&& nv.1 == map_entries(tables, pd_of(vaddr) * 1024 + pt_of(vaddr), nb as int, contiguous(p), flags)
                },
                Err(_) => {
                    &&& nu == after
                    &&& nv.0 == pdes
                    &&& nv.1 == tables
                    &&& forall|p2: int| 0 <= p2 && p2 + nb <= PAGE_NUMBER ==> !#[trigger] run_free(nu, p2, nb as int)
                },
            }
        })
    )
}

/// One entry of the page directory.
#[derive(Copy, Clone)]
pub struct PageDirectoryEntry {
    pub value: u32,
}

impl From<u32> for PageDirectoryEntry {
    fn from(item: u32) -> (res: Self) {
        PageDirectoryEntry { value: item }
    }
}

impl vstd::std_specs::convert::FromSpecImpl<u32> for PageDirectoryEntry {
    open spec fn obeys_from_spec() -> bool {
        true
    }

    open spec fn from_spec(v: u32) -> Self {
        PageDirectoryEntry { value: v }
    }
}

impl View for PageDirectoryEntry {
    type V = u32;

    open spec fn view(&self) -> u32 {
        self.value
    }
}

impl PageDirectoryEntry {
    pub fn get_present(&self) -> (res: u8)
        ensures
            res == bit(self@, 0),
    {
        let v = self.value;
        proof {
            lemma_bit_u32(v, 0u32);
        }
        ((v >> 0u32) & 1u32) as u8
    }

    pub fn get_writable(&self) -> (res: u8)
        ensures
            res == bit(self@, 1),
    {
        let v = self.value;
        proof {
            lemma_bit_u32(v, 1u32);
        }
        ((v >> 1u32) & 1u32) as u8
    }

    pub fn get_user_supervisor(&self) -> (res: u8)
        ensures
            res == bit(self@, 2),
    {
        let v = self.value;
        proof {
            lemma_bit_u32(v, 2u32);
        }
        ((v >> 2u32) & 1u32) as u8
    }

    pub fn get_pwt(&self) -> (res: u8)
        ensures
            res == bit(self@, 3),
    {
        let v = self.value;
        proof {
            lemma_bit_u32(v, 3u32);
        }
        ((v >> 3u32) & 1u32) as u8
    }

    pub fn get_pcd(&self) -> (res: u8)
        ensures
            res == bit(self@, 4),
    {
        let v = self.value;
        proof {
            lemma_bit_u32(v, 4u32);
        }
        ((v >> 4u32) & 1u32) as u8
    }

    pub fn get_accessed(&self) -> (res: u8)
        ensures
            res == bit(self@, 5),
    {
        let v = self.value;
        proof {
            lemma_bit_u32(v, 5u32);
        }
        ((v >> 5u32) & 1u32) as u8
    }

    /// Page size bit: set for an entry that maps a 4 MiB page directly.
    pub fn get_ps(&self) -> (res: u8)
        ensures
            res == bit(self@, 7),
    {
        let v = self.value;
        proof {
            lemma_bit_u32(v, 7u32);
        }
        ((v >> 7u32) & 1u32) as u8
    }

    /// Dirty bit of a 4 MiB page; 0 for an entry that references a table.
    pub fn get_dirty(&self) -> (res: u8)
        ensures
            res == if bit(self@, 7) == 0 {
                0
            } else {
                bit(self@, 6)
            },
    {
        if self.get_ps() == 0 {
            return 0;
        } else {
            let v = self.value;
            proof {
                lemma_bit_u32(v, 6u32);
            }
            ((v >> 6u32) & 1u32) as u8
        }
    }

    /// Global bit of a 4 MiB page; 0 for an entry that references a table.
    pub fn get_global(&self) -> (res: u8)
        ensures
            res == if bit(self@, 7) == 0 {
                0
            } else {
                bit(self@, 8)
            },
    {
        if self.get_ps() == 0 {
            return 0;
        } else {
            let v = self.value;
            proof {
                lemma_bit_u32(v, 8u32);
            }
            ((v >> 8u32) & 1u32) as u8
        }
    }

    /// Bits available to the system: bits 9 to 11 for an entry that
    /// references a table, bits 8 to 11 and bit 6 (as bit 4) for a 4 MiB page.
    pub fn get_avl(&self) -> (res: u8)
        ensures
            res == if bit(self@, 7) == 0 {
                (self@ >> 9u32) & 7u32
            } else {
                ((self@ & 0b111100000000u32) >> 8u32) | ((self@ & 0b01000000u32) >> 2u32)
            },
    {
        let v = self.value;
        if self.get_ps() == 0 {
            proof {
                lemma_bit_u32(v, 9u32);
            }
            ((v >> 9u32) & 7u32) as u8
        } else {
            proof {
                lemma_bit_u32(v, 0u32);
            }
            (((v & 0b111100000000u32) >> 8u32) | ((v & 0b01000000u32) >> 2u32)) as u8
        }
    }

    /// Page attribute table bit of a 4 MiB page; 0 for a table entry.
    pub fn get_pat(&self) -> (res: u8)
        ensures
            res == if bit(self@, 7) == 0 {
                0
            } else {
                bit(self@, 12)
            },
    {
        if self.get_ps() == 0 {
            return 0;
        } else {
            let v = self.value;
            proof {
                lemma_bit_u32(v, 12u32);
            }
            ((v >> 12u32) & 1u32) as u8
        }
    }

    /// Reserved bit 20 of a 4 MiB page; 0 for a table entry.
    pub fn get_rsvd(&self) -> (res: u8)
        ensures
            res == if bit(self@, 7) == 0 {
                0
            } else {
                bit(self@, 20)
            },
    {
        if self.get_ps() == 0 {
            return 0;
        } else {
            let v = self.value;
            proof {
                lemma_bit_u32(v, 20u32);
            }
            ((v >> 20u32) & 1u32) as u8
        }
    }

    /// Physical address of the referenced table, or of the 4 MiB page.
    pub fn get_paddr(&self) -> (res: PhysAddr)
        ensures
            res == pde_paddr(self@),
    {
        if self.get_ps() == 0 {
            self.value & 0xfffff000u32
        } else {
            ((self.value & 0xfff00000u32) >> 10u32) | ((self.value & 0b111111110000000000000u32)
                << 19u32)
        }
    }
}

/// The page directory together with the tables it references.
pub struct PageDirectory {
    entries: Vec<PageDirectoryEntry>,
    tables: Vec<PageTable>,
}

impl View for PageDirectory {
    /// The directory entries, and the entries of each page table.
    type V = (Seq<u32>, Seq<Seq<u32>>);

    closed spec fn view(&self) -> (Seq<u32>, Seq<Seq<u32>>) {
        (
            self.entries@.map_values(|e: PageDirectoryEntry| e.value),
            self.tables@.map_values(|t: PageTable| t@),
        )
    }
}

/// Shape of a directory view: 1024 entries and 1024 tables of 1024 entries.
pub open spec fn dir_shape(v: (Seq<u32>, Seq<Seq<u32>>)) -> bool {
    &&& v.0.len() == 1024
    &&& v.1.len() == 1024
    &&& forall|i: int| 0 <= i < 1024 ==> #[trigger] v.1[i].len() == 1024
}

impl PageDirectory {
    pub closed spec fn wf(&self) -> bool {
        &&& self.entries@.len() == 1024
        &&& self.tables@.len() == 1024
        &&& forall|i: int| 0 <= i < 1024 ==> #[trigger] self.tables@[i].wf()
    }

    pub proof fn lemma_shape(&self)
        requires
            self.wf(),
        ensures
            dir_shape(self@),
    {
        assert forall|i: int| 0 <= i < 1024 implies #[trigger] self@.1[i].len() == 1024 by {
            assert(self.tables@[i].wf());
        }
    }

    /// Entry `i` of the directory.
    pub open spec fn pde(&self, i: int) -> u32 {
        self@.0[i]
    }

    /// Entry `j` of the page table of directory entry `i`.
    pub open spec fn pte(&self, i: int, j: int) -> u32 {
        self@.1[i][j]
    }

    /// A directory whose only entry is the recursive one, the last, which
    /// maps the directory's own frame at `paddr` with `flags`.
    pub fn new(paddr: PhysAddr, flags: u32) -> (res: PageDirectory)
        ensures
            res.wf(),
            res@.0 == Seq::new(1024, |i: int| if i == 1023 { paddr | flags | PAGE_PRESENT } else { 0u32 }),
            res@.1 == Seq::new(1024, |i: int| zero_table()),
    {
        let mut entries: Vec<PageDirectoryEntry> = Vec::new();
        let mut tables: Vec<PageTable> = Vec::new();
        let mut i: usize = 0;
        while i < 1024
            invariant
                i <= 1024,
                entries@.len() == i,
                tables@.len() == i,
                forall|k: int| 0 <= k < i ==> #[trigger] entries@[k].value == 0u32,
                forall|k: int|
                    0 <= k < i ==> (#[trigger] tables@[k]).wf() && tables@[k]@ == zero_table(),
            decreases 1024 - i,
        {
            entries.push(PageDirectoryEntry { value: 0 });
            tables.push(PageTable::new());
            i += 1;
        }
        entries[1023] = PageDirectoryEntry { value: paddr | flags | PAGE_PRESENT };
        let res = PageDirectory { entries, tables };
        assert(res@.0 =~= Seq::new(
            1024,
            |i: int| if i == 1023 { paddr | flags | PAGE_PRESENT } else { 0u32 },
        ));
        assert(res@.1 =~= Seq::new(1024, |i: int| zero_table()));
        res
    }

    pub fn set_entry(&mut self, index: usize, value: u32)
        requires
            old(self).wf(),
            index < 1024,
        ensures
            final(self).wf(),
            final(self)@.0 == old(self)@.0.update(index as int, value),
            final(self)@.1 == old(self)@.1,
    {
        self.entries[index] = PageDirectoryEntry { value };
        assert(self@.0 =~= old(self)@.0.update(index as int, value));
        assert(self@.1 =~= old(self)@.1);
    }

    pub fn get_entry(&self, index: usize) -> (res: PageDirectoryEntry)
        requires
            self.wf(),
            index < 1024,
        ensures
            res@ == self.pde(index as int),
    {
        self.entries[index]
    }

    /// Entry `j` of the page table of directory entry `i`.
    pub fn get_table_entry(&self, i: usize, j: usize) -> (res: PageTableEntry)
        requires
            self.wf(),
            i < 1024,
            j < 1024,
        ensures
            res.value == self.pte(i as int, j as int),
    {
        proof {
            assert(self.tables@[i as int].wf());
        }
        self.tables[i].entries[j]
    }

    /// Sets entry `j` of the page table of directory entry `i`.
    pub(crate) fn set_table_entry(&mut self, i: usize, j: usize, value: u32)
        requires
            old(self).wf(),
            i < 1024,
            j < 1024,
        ensures
            final(self).wf(),
            final(self)@.0 == old(self)@.0,
            final(self)@.1 == old(self)@.1.update(i as int, old(self)@.1[i as int].update(j as int, value)),
    {
        proof {
            assert(self.tables@[i as int].wf());
        }
        self.tables[i].set_entry(j, value);
        assert(self@.0 =~= old(self)@.0);
        assert(self@.1 =~= old(self)@.1.update(i as int, old(self)@.1[i as int].update(j as int, value)));
    }

    /// Makes the page table of directory entry `i` a copy of that of
    /// `other`.
    pub(crate) fn copy_table_from(&mut self, i: usize, other: &PageDirectory)
        requires
            old(self).wf(),
            other.wf(),
            i < 1024,
        ensures
            final(self).wf(),
            final(self)@.0 == old(self)@.0,
            final(self)@.1 == old(self)@.1.update(i as int, other@.1[i as int]),
    {
        proof {
            self.lemma_shape();
            other.lemma_shape();
        }
        let mut j: usize = 0;
        while j < 1024
            invariant
                self.wf(),
                other.wf(),
                i < 1024,
                j <= 1024,
                self@.0 == old(self)@.0,
                self@.1.len() == old(self)@.1.len(),
                forall|a: int| 0 <= a < 1024 && a != i ==> #[trigger] self@.1[a] == old(self)@.1[a],
                self@.1[i as int].len() == 1024,
                forall|b: int| 0 <= b < j ==> #[trigger] self@.1[i as int][b] == other@.1[i as int][b],
                other@.1[i as int].len() == 1024,
            decreases 1024 - j,
        {
            let e = other.get_table_entry(i, j);
            self.set_table_entry(i, j, e.value);
            j += 1;
        }
        proof {
            assert(self@.1[i as int] =~= other@.1[i as int]);
            assert(self@.1 =~= old(self)@.1.update(i as int, other@.1[i as int]));
        }
    }

    /// Fills the page table of directory entry `i` as the kernel's own
    /// table (see `PageTable::init`).
    pub(crate) fn init_table(&mut self, i: usize, rodata: usize, pd_vaddr: usize)
        requires
            old(self).wf(),
            i < 1024,
        ensures
            final(self).wf(),
            final(self)@.0 == old(self)@.0,
            final(self)@.1 == old(self)@.1.update(i as int, Seq::new(1024, |k: int| init_entry(k, rodata, pd_vaddr))),
    {
        proof {
            assert(self.tables@[i as int].wf());
        }
        self.tables[i].init(rodata, pd_vaddr);
        assert(self.tables@[i as int]@ =~= Seq::new(1024, |k: int| init_entry(k, rodata, pd_vaddr)));
        assert(self@.0 =~= old(self)@.0);
        assert(self@.1 =~= old(self)@.1.update(i as int, Seq::new(1024, |k: int| init_entry(k, rodata, pd_vaddr))));
    }

    /// Sets every entry of the page table of directory entry `i` to zero.
    pub(crate) fn clear_table(&mut self, i: usize)
        requires
            old(self).wf(),
            i < 1024,
        ensures
            final(self).wf(),
            final(self)@.0 == old(self)@.0,
            final(self)@.1 == old(self)@.1.update(i as int, zero_table()),
    {
        proof {
            assert(self.tables@[i as int].wf());
        }
        self.tables[i].clear();
        assert(self@.0 =~= old(self)@.0);
        assert(self@.1 =~= old(self)@.1.update(i as int, zero_table()));
    }

    /// Sets every directory entry to zero.
    pub fn clear(&mut self)
        requires
            old(self).wf(),
        ensures
            final(self).wf(),
            final(self)@.0 == Seq::new(1024, |i: int| 0u32),
            final(self)@.1 == old(self)@.1,
    {
        let mut i: usize = 0;
        while i < 1024
            invariant
                self.wf(),
                i <= 1024,
                self@.1 == old(self)@.1,
                forall|k: int| 0 <= k < i ==> self@.0[k] == 0u32,
            decreases 1024 - i,
        {
            self.set_entry(i, 0);
            i += 1;
        }
        assert(self@.0 =~= Seq::new(1024, |i: int| 0u32));
    }

    /// Takes the lowest free frame of `physmap` as the page table of entry
    /// `index`, maps it with `flags` and clears it.
    pub fn claim_index_page_table(&mut self, index: usize, flags: u32, physmap: &mut Bitmaps) -> (res:
        Result<usize, ()>)
        requires
            old(self).wf(),
            old(physmap).wf(),
            old(physmap).free_count() > 0,
            index < 1024,
        ensures
            final(self).wf(),
            final(physmap).wf(),
            final(physmap).counter() == final(physmap)@.len(),
            res == Ok::<usize, ()>(index),
            lowest_free(old(physmap)@, first_free(old(physmap)@)),
            final(physmap)@ == old(physmap)@.insert(first_free(old(physmap)@)),
            final(self)@.0 == old(self)@.0.update(
                index as int,
                frame_entry(frame_addr(first_free(old(physmap)@)) as u32, flags),
            ),
            final(self)@.1 == old(self)@.1.update(index as int, zero_table()),
    {
        let r = physmap.get_page();
        let paddr = match r {
            Ok(a) => a,
            Err(_) => {
                return Err(());
            },
        };
        self.set_entry(index, paddr | flags | PAGE_PRESENT);
        self.clear_table(index);
        Ok(index)
    }

    /// Claims the first directory entry that is not present as a new table.
    fn claim_page_table(&mut self, flags: u32, physmap: &mut Bitmaps) -> (res: Result<usize, ()>)
        requires
            old(self).wf(),
            old(physmap).wf(),
            old(physmap).free_count() > 0,
            tables_fit(old(self)@.0, 1),
        ensures
            final(self).wf(),
            final(physmap).wf(),
            final(physmap).counter() == final(physmap)@.len(),
            match res {
                Ok(i) => {
                    &&& first_absent(old(self)@.0, i as int)
                    &&& final(physmap)@ == claimed_after(old(physmap)@, 1)
                    &&& final(self)@.0 == pdes_with_tables(old(self)@.0, i as int, 1, old(physmap)@, flags)
                    &&& final(self)@.1 == tables_cleared(old(self)@.1, i as int, 1)
                },
                Err(_) => false,
            },
    {
        let mut i: usize = 0;
        proof {
            self.lemma_shape();
        }
        while i < 1024
            invariant
                self.wf(),
                self@ == old(self)@,
                dir_shape(self@),
                physmap.wf(),
                old(physmap).wf(),
                physmap@ == old(physmap)@,
                physmap.free_count() > 0,
                i <= 1024,
                tables_fit(old(self)@.0, 1),
                forall|k: int| 0 <= k < i ==> present(#[trigger] self@.0[k]),
            decreases 1024 - i,
        {
            let e = self.get_entry(i);
            proof {
                let v = e.value;
                assert(((v >> 0u32) & 1u32 == 0u32) == !(v & 1u32 == 1u32)) by {
                lemma_bit_u32(v, 0u32);
            }
            }
            if e.get_present() == 0 {
                let r = self.claim_index_page_table(i, flags, physmap);
                proof {
                    physmap.lemma_wf_facts();
                    old(physmap).lemma_wf_facts();
                    assert(claimed_after(old(physmap)@, 0) == old(physmap)@);
                    lemma_claimed_after_step(old(physmap)@, 0, first_free(old(physmap)@));
                    assert(self@.0 =~= pdes_with_tables(old(self)@.0, i as int, 1, old(physmap)@, flags));
                    assert(self@.1 =~= tables_cleared(old(self)@.1, i as int, 1));
                }
                return r;
            }
            i += 1;
        }
        proof {
            let w = choose|w: int| tables_start(old(self)@.0, 1, w);
            assert(present(self@.0[w]));
        }
        Err(())
    }

    /// Claims `nb` new tables at entries `index .. index + nb`, each on the
    /// lowest free frame at its turn.
    pub fn claim_index_page_tables(&mut self, index: usize, nb: usize, flags: u32, physmap: &mut Bitmaps) -> (res: Result<usize, ()>)
        requires
            old(self).wf(),
            old(physmap).wf(),
            old(physmap).free_count() >= nb,
            index + nb <= 1024,
        ensures
            final(self).wf(),
            final(physmap).wf(),
            final(physmap).counter() == final(physmap)@.len(),
            res == Ok::<usize, ()>(index),
            final(physmap)@ == claimed_after(old(physmap)@, nb as nat),
            final(self)@.0 == pdes_with_tables(old(self)@.0, index as int, nb as int, old(physmap)@, flags),
            final(self)@.1 == tables_cleared(old(self)@.1, index as int, nb as int),
    {
        let mut count: usize = 0;
        proof {
            self.lemma_shape();
            physmap.lemma_wf_facts();
            assert(self@.0 =~= pdes_with_tables(old(self)@.0, index as int, 0, old(physmap)@, flags));
            assert(self@.1 =~= tables_cleared(old(self)@.1, index as int, 0));
        }
        while count < nb
            invariant
                self.wf(),
                physmap.wf(),
                dir_shape(old(self)@),
                count <= nb,
                index + nb <= 1024,
                old(physmap)@.len() + nb <= 1048576,
                physmap@ == claimed_after(old(physmap)@, count as nat),
                physmap@.len() == old(physmap)@.len() + count,
                physmap@.finite(),
                self@.0 == pdes_with_tables(old(self)@.0, index as int, count as int, old(physmap)@, flags),
                self@.1 == tables_cleared(old(self)@.1, index as int, count as int),
            decreases nb - count,
        {
            let ghost before = physmap@;
            let r = self.claim_index_page_table(index + count, flags, physmap);
            proof {
                lemma_claimed_after_step(old(physmap)@, count as nat, first_free(before));
                physmap.lemma_wf_facts();
                assert(self@.0 =~= pdes_with_tables(old(self)@.0, index as int, count + 1, old(physmap)@, flags));
                assert(self@.1 =~= tables_cleared(old(self)@.1, index as int, count + 1));
            }
            count += 1;
        }
        proof {
            physmap.lemma_wf_facts();
        }
        Ok(index)
    }

    /// Claims `nb` new adjacent tables at the first place that holds them
    /// (the first absent entry when `nb` is 1) and returns the index of the
    /// first one.
    fn claim_page_tables(&mut self, nb: usize, flags: u32, physmap: &mut Bitmaps) -> (res: Result<usize, ()>)
        requires
            old(self).wf(),
            old(physmap).wf(),
            old(physmap).free_count() >= nb,
            nb >= 1,
            tables_fit(old(self)@.0, nb as int),
        ensures
            final(self).wf(),
            final(physmap).wf(),
            final(physmap).counter() == final(physmap)@.len(),
            match res {
                Ok(i) => {
                    &&& tables_start(old(self)@.0, nb as int, i as int)
                    &&& final(physmap)@ == claimed_after(old(physmap)@, nb as nat)
                    &&& final(self)@.0 == pdes_with_tables(old(self)@.0, i as int, nb as int, old(physmap)@, flags)
                    &&& final(self)@.1 == tables_cleared(old(self)@.1, i as int, nb as int)
                },
                Err(_) => false,
            },
    {
        if nb == 1 {
            return self.claim_page_table(flags, physmap);
        }
        proof {
            self.lemma_shape();
        }
        let mut i: usize = 0;
        while i < 1024
            invariant
                self.wf(),
                self@ == old(self)@,
                dir_shape(self@),
                physmap.wf(),
                physmap@ == old(physmap)@,
                physmap.free_count() >= nb,
                nb >= 2,
                i <= 1024,
                tables_fit(old(self)@.0, nb as int),
                forall|i2: int| 0 <= i2 < i ==> !#[trigger] absent_run(self@.0, i2, nb as int),
            decreases 1024 - i,
        {
            let e = self.get_entry(i);
            proof {
                let v = e.value;
                assert(((v >> 0u32) & 1u32 == 0u32) == !(v & 1u32 == 1u32)) by {
                lemma_bit_u32(v, 0u32);
            }
            }
            if e.get_present() == 0 {
                let mut j: usize = i + 1;
                while j < 1024 && self.get_entry(j).get_present() == 0 && j - i != nb
                    invariant
                        self.wf(),
                        dir_shape(self@),
                        i < j <= 1024,
                        j - i <= nb,
                        forall|k: int| i <= k < j ==> !present(#[trigger] self@.0[k]),
                    decreases 1024 - j,
                {
                    proof {
                        let v = self@.0[j as int];
                        assert(((v >> 0u32) & 1u32 == 0u32) == !(v & 1u32 == 1u32)) by {
                lemma_bit_u32(v, 0u32);
            }
                    }
                    j += 1;
                }
                if j < 1024 {
                    proof {
                        let v = self@.0[j as int];
                        assert(((v >> 0u32) & 1u32 == 0u32) == !(v & 1u32 == 1u32)) by {
                lemma_bit_u32(v, 0u32);
            }
                    }
                }
                if j - i == nb && j < 1024 {
                    proof {
                        assert(absent_run(self@.0, i as int, nb as int));
                        assert(tables_start(old(self)@.0, nb as int, i as int));
                    }
                    let r = self.claim_index_page_tables(i, nb, flags, physmap);
                    return r;
                }
                proof {
                    if absent_run(self@.0, i as int, nb as int) {
                        if j < 1024 && j - i < nb {
                            assert(!present(self@.0[j as int]));
                        }
                    }
                }
            }
            i += 1;
        }
        proof {
            let w = choose|w: int| tables_start(old(self)@.0, nb as int, w);
            assert(absent_run(self@.0, w, nb as int));
        }
        Err(())
    }

    /// Maps `nb` frames at the table entries that follow entry `pt_index` of
    /// table `pd_index`, continuing into the next tables, each frame being
    /// the lowest free frame at its turn.
    fn claim_index_page_frames(&mut self, pd_index: usize, pt_index: usize, nb: usize, flags: u32, physmap: &mut Bitmaps) -> (res: Result<(), ()>)
        requires
            old(self).wf(),
            old(physmap).wf(),
            old(physmap).free_count() >= nb,
            pt_index < 1024,
            pd_index * 1024 + pt_index + nb <= 1024 * 1024,
        ensures
            final(self).wf(),
            final(physmap).wf(),
            final(physmap).counter() == final(physmap)@.len(),
            res == Ok::<(), ()>(()),
            final(physmap)@ == claimed_after(old(physmap)@, nb as nat),
            final(self)@.0 == old(self)@.0,
            final(self)@.1 == map_entries(old(self)@.1, pd_index * 1024 + pt_index, nb as int, successive(old(physmap)@), flags),
    {
        let ghost base = pd_index * 1024 + pt_index;
        let mut pd: usize = pd_index;
        let mut pt: usize = pt_index;
        let mut i: usize = 0;
        proof {
            self.lemma_shape();
            physmap.lemma_wf_facts();
            let m0 = map_entries(old(self)@.1, base, 0, successive(old(physmap)@), flags);
            assert forall|a: int| 0 <= a < 1024 implies #[trigger] self@.1[a] =~= m0[a] by {}
            assert(self@.1 =~= m0);
        }
        while i < nb
            invariant
                self.wf(),
                physmap.wf(),
                dir_shape(old(self)@),
                i <= nb,
                pt <= 1024,
                pd * 1024 + pt == base + i,
                base + nb <= 1024 * 1024,
                old(physmap)@.len() + nb <= 1048576,
                physmap@ == claimed_after(old(physmap)@, i as nat),
                physmap@.len() == old(physmap)@.len() + i,
                physmap@.finite(),
                self@.0 == old(self)@.0,
                self@.1 == map_entries(old(self)@.1, base, i as int, successive(old(physmap)@), flags),
            decreases nb - i,
        {
            if pt == 1024 {
                pt = 0;
                pd += 1;
            }
            let ghost before = physmap@;
            let r = physmap.get_page();
            let paddr = match r {
                Ok(a) => a,
                Err(_) => {
                    return Err(());
                },
            };
            proof {
                lemma_claimed_after_step(old(physmap)@, i as nat, first_free(before));
                physmap.lemma_wf_facts();
                assert(pd < 1024) by (nonlinear_arith)
                    requires
                        pd * 1024 + pt == base + i,
                        base + nb <= 1024 * 1024,
                        i < nb,
                        pt < 1024,
                ;
            }
            self.set_table_entry(pd, pt, paddr | flags | 1u32);
            proof {
                let prev = map_entries(old(self)@.1, base, i as int, successive(old(physmap)@), flags);
                let next = map_entries(old(self)@.1, base, i + 1, successive(old(physmap)@), flags);
                assert forall|a: int| 0 <= a < 1024 implies #[trigger] self@.1[a] =~= next[a] by {
                    assert forall|b: int| 0 <= b < 1024 implies self@.1[a][b] == next[a][b] by {
                        if a == pd as int && b == pt as int {
                        } else {
                            if a * 1024 + b == base + i {
                                lemma_flat_unique(a, b, pd as int, pt as int);
                            }
                        }
                    }
                }
                assert(self@.1 =~= next);
            }
            pt += 1;
            i += 1;
        }
        proof {
            physmap.lemma_wf_facts();
        }
        Ok(())
    }

    /// Maps `nb` physically adjacent frames, the first run of free frames,
    /// at the table entries that follow entry `pt_index` of table
    /// `pd_index`; fails, changing nothing, when no such run exists.
    fn kclaim_index_page_frames(&mut self, pd_index: usize, pt_index: usize, nb: usize, flags: u32, physmap: &mut Bitmaps) -> (res: Result<(), ()>)
        requires
            old(self).wf(),
            old(physmap).wf(),
            pt_index < 1024,
            pd_index * 1024 + pt_index + nb <= 1024 * 1024,
        ensures
            final(self).wf(),
            final(physmap).wf(),
            final(physmap).counter() == final(physmap)@.len(),
            match res {
                Ok(_) => {
                    let p = first_fit(old(physmap)@, nb as int);
                    &&& is_first_fit(old(physmap)@, nb as int, p)
                    &&& final(physmap)@ == with_run(old(physmap)@, p, nb as int)
                    &&& final(self)@.0 == old(self)@.0
                    &&& final(self)@.1 == map_entries(old(self)@.1, pd_index * 1024 + pt_index, nb as int, contiguous(p), flags)
                },
                Err(_) => {
                    &&& final(physmap)@ == old(physmap)@
                    &&& final(self)@ == old(self)@
                    &&& forall|p2: int| 0 <= p2 && p2 + nb <= 1048576 ==> !#[trigger] run_free(old(physmap)@, p2, nb as int)
                },
            },
    {
        let r = physmap.get_pages(nb);
        let mut paddr: PhysAddr = match r {
            Ok(a) => a,
            Err(_) => {
                return Err(());
            },
        };
        let ghost p = first_fit(old(physmap)@, nb as int);
        let ghost base = pd_index * 1024 + pt_index;
        let mut pd: usize = pd_index;
        let mut pt: usize = pt_index;
        let mut i: usize = 0;
        proof {
            self.lemma_shape();
            let m0 = map_entries(old(self)@.1, base, 0, contiguous(p), flags);
            assert forall|a: int| 0 <= a < 1024 implies #[trigger] self@.1[a] =~= m0[a] by {}
            assert(self@.1 =~= m0);
        }
        while i < nb
            invariant
                self.wf(),
                dir_shape(old(self)@),
                i <= nb,
                pt <= 1024,
                pd * 1024 + pt == base + i,
                base + nb <= 1024 * 1024,
                0 <= p,
                p + nb <= 1048576,
                i < nb ==> paddr == frame_addr(p + i),
                self@.0 == old(self)@.0,
                self@.1 == map_entries(old(self)@.1, base, i as int, contiguous(p), flags),
            decreases nb - i,
        {
            if pt == 1024 {
                pt = 0;
                pd += 1;
            }
            proof {
                assert(pd < 1024) by (nonlinear_arith)
                    requires
                        pd * 1024 + pt == base + i,
                        base + nb <= 1024 * 1024,
                        i < nb,
                        pt < 1024,
                ;
            }
            self.set_table_entry(pd, pt, paddr | flags | 1u32);
            proof {
                let next = map_entries(old(self)@.1, base, i + 1, contiguous(p), flags);
                assert forall|a: int| 0 <= a < 1024 implies #[trigger] self@.1[a] =~= next[a] by {
                    assert forall|b: int| 0 <= b < 1024 implies self@.1[a][b] == next[a][b] by {
                        if a == pd as int && b == pt as int {
                        } else {
                            if a * 1024 + b == base + i {
                                lemma_flat_unique(a, b, pd as int, pt as int);
                            }
                        }
                    }
                }
                assert(self@.1 =~= next);
            }
            pt += 1;
            i += 1;
            if i < nb {
                paddr = paddr + 4096;
            }
        }
        Ok(())
    }

    /// Runs `PageTable::new_frame` on the table of directory entry `i`.
    fn table_new_frame(&mut self, i: usize, paddr: PhysAddr, flags: u32) -> (res: Result<u16, ()>)
        requires
            old(self).wf(),
            i < 1024,
        ensures
            final(self).wf(),
            final(self)@.0 == old(self)@.0,
            match res {
                Ok(j) => {
                    &&& j < 1024
                    &&& !present(old(self)@.1[i as int][j as int])
                    &&& forall|k: int| 0 <= k < j ==> present(#[trigger] old(self)@.1[i as int][k])
                    &&& final(self)@.1 == old(self)@.1.update(i as int, old(self)@.1[i as int].update(j as int, frame_entry(paddr, flags)))
                },
                Err(_) => {
                    &&& forall|k: int| 0 <= k < 1024 ==> present(#[trigger] old(self)@.1[i as int][k])
                    &&& final(self)@ == old(self)@
                },
            },
    {
        proof {
            assert(self.tables@[i as int].wf());
        }
        let r = self.tables[i].new_frame(paddr, flags);
        assert(self@.0 =~= old(self)@.0);
        match r {
            Ok(j) => {
                assert(self@.1 =~= old(self)@.1.update(i as int, old(self)@.1[i as int].update(j as int, frame_entry(paddr, flags))));
            },
            Err(_) => {
                assert(self@.1 =~= old(self)@.1);
            },
        }
        r
    }

    /// Maps the lowest free frame at the first table entry that is not
    /// present, in the first present table that has one; when no present
    /// table has one, the frame goes to entry 0 of a new table claimed at the
    /// first absent directory entry. Returns the virtual address mapped.
    pub fn get_page_frame(&mut self, flags: u32, physmap: &mut Bitmaps) -> (res: Result<VirtAddr, ()>)
        requires
            old(self).wf(),
            old(physmap).wf(),
            (old(physmap).free_count() >= 1 && !no_run(old(self)@, 0, 1)) || (old(physmap).free_count() >= 2 && tables_fit(old(self)@.0, 1)),
        ensures
            final(self).wf(),
            final(physmap).wf(),
            final(physmap).counter() == final(physmap)@.len(),
            match res {
                Ok(va) => {
                    ||| exists|l: int| {
                        &&& #[trigger] first_run(old(self)@, 0, 1, l)
                        &&& va == vaddr_of(l / 1024, l % 1024)
                        &&& final(physmap)@ == claimed_after(old(physmap)@, 1)
                        &&& final(self)@.0 == old(self)@.0
                        &&& final(self)@.1 == map_entries(old(self)@.1, l, 1, successive(old(physmap)@), flags)
                    }
                    ||| exists|k: int| {
                        &&& no_run(old(self)@, 0, 1)
                        &&& #[trigger] first_absent(old(self)@.0, k)
                        &&& va == vaddr_of(k, 0)
                        &&& final(physmap)@ == claimed_after(old(physmap)@, 2)
                        &&& final(self)@.0 == pdes_with_tables(old(self)@.0, k, 1, claimed_after(old(physmap)@, 1), flags)
                        &&& final(self)@.1 == map_entries(tables_cleared(old(self)@.1, k, 1), k * 1024, 1, successive(old(physmap)@), flags)
                    }
                },
                Err(_) => false,
            },
    {
        proof {
            self.lemma_shape();
            physmap.lemma_wf_facts();
        }
        let ghost p0 = old(physmap)@;
        let r = physmap.get_page();
        let paddr = match r {
            Ok(a) => a,
            Err(_) => {
                return Err(());
            },
        };
        proof {
            assert(claimed_after(p0, 0) == p0);
            lemma_claimed_after_step(p0, 0, first_free(p0));
            physmap.lemma_wf_facts();
            assert(paddr == frame_addr(first_free(p0)) as u32);
        }
        let mut i: usize = 0;
        while i < 1023
            invariant
                self.wf(),
                self@ == old(self)@,
                dir_shape(self@),
                physmap.wf(),
                physmap.counter() == physmap@.len(),
                physmap@ == claimed_after(p0, 1),
                p0 == old(physmap)@,
                claimed_after(p0, 0) == p0,
                paddr == frame_addr(first_free(p0)) as u32,
                physmap.free_count() == old(physmap).free_count() - 1,
                (old(physmap).free_count() >= 1 && !no_run(old(self)@, 0, 1)) || (old(physmap).free_count() >= 2 && tables_fit(old(self)@.0, 1)),
                i <= 1023,
                forall|l: int| 0 <= l < i * 1024 ==> !#[trigger] usable(self@, l),
            decreases 1023 - i,
        {
            let e = self.get_entry(i);
            proof {
                let v = e.value;
                assert(((v >> 0u32) & 1u32 == 1u32) == (v & 1u32 == 1u32)) by {
                lemma_bit_u32(v, 0u32);
            }
                assert(((v >> 0u32) & 1u32 == 1u32) || ((v >> 0u32) & 1u32 == 0u32)) by {
                lemma_bit_u32(v, 0u32);
            }
            }
            if e.get_present() == 1 {
                let ghost before = self@;
                let res = self.table_new_frame(i, paddr, flags);
                match res {
                    Ok(j) => {
                        let va = get_vaddr(i, j as usize);
                        proof {
                            let l = i * 1024 + j;
                            lemma_flat_split(i as int, j as int);
                            assert(usable(before, l));
                            assert forall|l2: int| 0 <= l2 < l implies !#[trigger] run_usable(before, l2, 1) by {
                                if l2 >= i * 1024 {
                                    lemma_flat_split(i as int, l2 - i * 1024);
                                    assert(!usable(before, l2));
                                } else {
                                    assert(!usable(before, l2));
                                }
                            }
                            assert(first_run(before, 0, 1, l));
                            let m = map_entries(old(self)@.1, l, 1, successive(p0), flags);
                            assert forall|a: int| 0 <= a < 1024 implies #[trigger] self@.1[a] =~= m[a] by {
                                assert forall|b: int| 0 <= b < 1024 implies self@.1[a][b] == m[a][b] by {
                                    if a * 1024 + b == l {
                                        lemma_flat_unique(a, b, i as int, j as int);
                                    }
                                }
                            }
                            assert(self@.1 =~= m);
                        }
                        return Ok(va);
                    },
                    Err(_) => {
                        proof {
                            assert forall|l: int| 0 <= l < (i + 1) * 1024 implies !#[trigger] usable(self@, l) by {
                                if l >= i * 1024 {
                                    lemma_flat_split(i as int, l - i * 1024);
                                }
                            }
                        }
                    },
                }
            } else {
                proof {
                    assert forall|l: int| 0 <= l < (i + 1) * 1024 implies !#[trigger] usable(self@, l) by {
                        if l >= i * 1024 {
                            lemma_flat_split(i as int, l - i * 1024);
                        }
                    }
                }
            }
            i += 1;
        }
        proof {
            assert forall|l2: int| 0 <= l2 && l2 + 1 <= slot_end() implies !#[trigger] run_usable(old(self)@, l2, 1) by {
                assert(!usable(old(self)@, l2));
            }
        }
        let k = match self.claim_page_table(flags, physmap) {
            Ok(k) => k,
            Err(_) => {
                return Err(());
            },
        };
        let ghost mid = self@;
        let res = self.table_new_frame(k, paddr, flags);
        match res {
            Ok(j) => {
                proof {
                    assert(mid.1[k as int] == zero_table());
                    assert(j == 0) by {
                        if j > 0 {
                            assert(present(mid.1[k as int][0]));
                            assert(0u32 & 1u32 == 0u32) by {
                lemma_bit_u32(0u32, 0u32);
            }
                        }
                    }
                    assert(claimed_after(p0, 2) == claimed_after(p0, 1).insert(first_free(claimed_after(p0, 1))));
                    assert(claimed_after(claimed_after(p0, 1), 1) == claimed_after(p0, 1).insert(first_free(claimed_after(p0, 1)))) by {
                        assert(claimed_after(claimed_after(p0, 1), 0) == claimed_after(p0, 1));
                    }
                    let m = map_entries(tables_cleared(old(self)@.1, k as int, 1), k * 1024, 1, successive(p0), flags);
                    assert forall|a: int| 0 <= a < 1024 implies #[trigger] self@.1[a] =~= m[a] by {
                        assert forall|b: int| 0 <= b < 1024 implies self@.1[a][b] == m[a][b] by {
                            if a * 1024 + b == k * 1024 {
                                lemma_flat_unique(a, b, k as int, 0);
                            }
                        }
                    }
                    assert(self@.1 =~= m);
                }
                let va = get_vaddr(k, 0);
                Ok(va)
            },
            Err(_) => {
                proof {
                    assert(present(mid.1[k as int][0]));
                    assert(0u32 & 1u32 == 0u32) by {
                lemma_bit_u32(0u32, 0u32);
            }
                }
                Err(())
            },
        }
    }

    /// Entry `l` can take a new frame.
    fn is_usable(&self, l: usize) -> (res: bool)
        requires
            self.wf(),
            l < 1047552,
        ensures
            res == usable(self@, l as int),
    {
        let i = l / 1024;
        let j = l % 1024;
        let e = self.get_entry(i);
        proof {
            let v = e.value;
            assert(((v >> 0u32) & 1u32 == 1u32) == (v & 1u32 == 1u32)) by {
                lemma_bit_u32(v, 0u32);
            }
        }
        if e.get_present() == 1 {
            let t = self.get_table_entry(i, j);
            proof {
                let v = t.value;
                assert(((v >> 0u32) & 1u32 == 0u32) == !(v & 1u32 == 1u32)) by {
                lemma_bit_u32(v, 0u32);
            }
            }
            t.get_present() == 0
        } else {
            false
        }
    }

    /// Start of the first run of `nb` virtually adjacent table entries that
    /// can each take a frame, from table `from` on.
    fn find_run(&self, from: usize, nb: usize) -> (res: Option<usize>)
        requires
            self.wf(),
            from <= 1023,
            nb >= 1,
        ensures
            match res {
                Some(l) => first_run(self@, from * 1024, nb as int, l as int),
                None => no_run(self@, from * 1024, nb as int),
            },
    {
        let start: usize = from * 1024;
        let mut l: usize = start;
        let mut count: usize = 0;
        let mut saved: usize = 0;
        while l < 1047552 && count != nb
            invariant
                self.wf(),
                start == from * 1024,
                start <= l <= 1047552,
                nb >= 1,
                count <= nb,
                count <= l - start,
                count == nb ==> l < 1047552 || count > 0,
                count > 0 ==> saved == l - count,
                run_usable(self@, l - count, count as int),
                forall|l2: int|
                    start <= l2 && l2 + nb <= l && l2 < l - count ==> !#[trigger] run_usable(self@, l2, nb as int),
                count < l - start ==> !usable(self@, l - count - 1),
            decreases 1047552 - l,
        {
            let u = self.is_usable(l);
            if u {
                if count == 0 {
                    saved = l;
                }
                proof {
                    assert forall|l2: int|
                        start <= l2 && l2 + nb <= l + 1 && l2 < l - count implies !#[trigger] run_usable(self@, l2, nb as int) by {
                        if l2 + nb == l + 1 {
                            assert(!usable(self@, l - count - 1));
                        }
                    }
                }
                count += 1;
            } else {
                proof {
                    assert forall|l2: int|
                        start <= l2 && l2 + nb <= l + 1 && l2 < l + 1 implies !#[trigger] run_usable(self@, l2, nb as int) by {
                        if l2 + nb == l + 1 {
                            assert(!usable(self@, l as int));
                        } else if l2 >= l - count {
                            assert(false);
                        }
                    }
                }
                count = 0;
            }
            l += 1;
        }
        if count == nb {
            Some(saved)
        } else {
            None
        }
    }

    /// Maps `nb` virtually adjacent pages at the first run of table entries
    /// that can take them; when there is none, at the start of
    /// `nb / 1024 + 1` new tables. Each page gets the lowest free frame at
    /// its turn. Returns the virtual address of the first page; fails only
    /// for `nb == 0`.
    pub fn get_page_frames(&mut self, nb: usize, flags: u32, physmap: &mut Bitmaps) -> (res: Result<VirtAddr, ()>)
        requires
            old(self).wf(),
            old(physmap).wf(),
            frames_pre(old(self)@, old(physmap).free_count(), nb),
        ensures
            final(self).wf(),
            final(physmap).wf(),
            final(physmap).counter() == final(physmap)@.len(),
            frames_outcome(old(self)@, old(physmap)@, nb, flags, final(self)@, final(physmap)@, res),
    {
        if nb == 0 {
            proof {
                physmap.lemma_wf_facts();
            }
            return Err(());
        }
        let found = self.find_run(0, nb);
        match found {
            Some(l) => {
                let i_saved = l / 1024;
                let j = l % 1024;
                let vaddr = get_vaddr(i_saved, j);
                proof {
                    lemma_flat_split(i_saved as int, j as int);
                }
                let r = self.claim_index_page_frames(i_saved, j, nb, flags, physmap);
                match r {
                    Ok(_) => {},
                    Err(_) => {
                        return Err(());
                    },
                }
                proof {
                    assert(first_run(old(self)@, 0, nb as int, l as int));
                }
                Ok(vaddr)
            },
            None => {
                let t = nb / 1024 + 1;
                let ghost after = claimed_after(old(physmap)@, t as nat);
                let r = self.claim_page_tables(t, flags, physmap);
                let i_saved = match r {
                    Ok(i) => i,
                    Err(_) => {
                        return Err(());
                    },
                };
                proof {
                    physmap.lemma_wf_facts();
                    old(physmap).lemma_wf_facts();
                    assert(physmap@.len() == old(physmap)@.len() + t) by {
                        lemma_claimed_after_len(old(physmap)@, t as nat);
                    }
                    if t == 1 {
                        assert(i_saved * 1024 + nb <= 1024 * 1024) by (nonlinear_arith)
                            requires
                                i_saved < 1024,
                                nb < 1024,
                        ;
                    } else {
                        assert(i_saved * 1024 + nb <= 1024 * 1024) by (nonlinear_arith)
                            requires
                                i_saved + t < 1024,
                                nb < t * 1024,
                        ;
                    }
                }
                let vaddr = get_vaddr(i_saved, 0);
                let r2 = self.claim_index_page_frames(i_saved, 0, nb, flags, physmap);
                match r2 {
                    Ok(_) => {},
                    Err(_) => {
                        return Err(());
                    },
                }
                proof {
                    assert(tables_start(old(self)@.0, t as int, i_saved as int));
                }
                Ok(vaddr)
            },
        }
    }

    /// Like `get_page_frames`, from the kernel half of the address space
    /// on, the pages taking physically adjacent frames: the first run of
    /// free frames. Fails for `nb == 0`, or when no run of `nb` free frames
    /// exists (the new tables, if any, stay claimed).
    pub fn kget_page_frames(&mut self, nb: usize, flags: u32, physmap: &mut Bitmaps) -> (res: Result<VirtAddr, ()>)
        requires
            old(self).wf(),
            old(physmap).wf(),
            kframes_pre(old(self)@, old(physmap).free_count(), nb),
        ensures
            final(self).wf(),
            final(physmap).wf(),
            final(physmap).counter() == final(physmap)@.len(),
            kframes_outcome(old(self)@, old(physmap)@, nb, flags, final(self)@, final(physmap)@, res),
    {
        if nb == 0 {
            proof {
                physmap.lemma_wf_facts();
            }
            return Err(());
        }
        let found = self.find_run(KERNEL_PD_INDEX, nb);
        match found {
            Some(l) => {
                let i_saved = l / 1024;
                let j = l % 1024;
                let vaddr = get_vaddr(i_saved, j);
                proof {
                    lemma_flat_split(i_saved as int, j as int);
                }
                let r = self.kclaim_index_page_frames(i_saved, j, nb, flags, physmap);
                match r {
                    Ok(_) => {},
                    Err(_) => {
                        return Err(());
                    },
                }
                proof {
                    assert(first_run(old(self)@, KERNEL_PD_INDEX * 1024, nb as int, l as int));
                }
                Ok(vaddr)
            },
            None => {
                let t = nb / 1024 + 1;
                let r = self.claim_page_tables(t, flags, physmap);
                let i_saved = match r {
                    Ok(i) => i,
                    Err(_) => {
                        return Err(());
                    },
                };
                proof {
                    if t == 1 {
                        assert(i_saved * 1024 + nb <= 1024 * 1024) by (nonlinear_arith)
                            requires
                                i_saved < 1024,
                                nb < 1024,
                        ;
                    } else {
                        assert(i_saved * 1024 + nb <= 1024 * 1024) by (nonlinear_arith)
                            requires
                                i_saved + t < 1024,
                                nb < t * 1024,
                        ;
                    }
                    assert(tables_start(old(self)@.0, t as int, i_saved as int));
                }
                let vaddr = get_vaddr(i_saved, 0);
                let r2 = self.kclaim_index_page_frames(i_saved, 0, nb, flags, physmap);
                match r2 {
                    Ok(_) => {},
                    Err(_) => {
                        proof {
                            assert(self@.0 == pdes_with_tables(old(self)@.0, i_saved as int, t as int, old(physmap)@, flags));
                        }
                        return Err(());
                    },
                }
                Ok(vaddr)
            },
        }
    }

    /// Maps `nb` pages from `vaddr` on, each on the lowest free frame at its
    /// turn, after claiming `nb / 1024 + 1` new tables at the directory entry
    /// of `vaddr` when that entry is not present. Entries already present are
    /// overwritten.
    pub fn get_page_frames_at_addr(&mut self, vaddr: VirtAddr, nb: usize, flags: u32, physmap: &mut Bitmaps) -> (res: Result<VirtAddr, ()>)
        requires
            old(self).wf(),
            old(physmap).wf(),
            frames_at_pre(old(self)@, old(physmap).free_count(), vaddr, nb),
        ensures
            final(self).wf(),
            final(physmap).wf(),
            final(physmap).counter() == final(physmap)@.len(),
            frames_at_outcome(old(self)@, old(physmap)@, vaddr, nb, flags, final(self)@, final(physmap)@, res),
    {
        let pd_index: usize = (vaddr >> 22u32) as usize;
        let pt_index: usize = ((vaddr & 0x3ff000u32) >> 12u32) as usize;
        proof {
            lemma_vaddr_split(vaddr);
            self.lemma_shape();
            old(physmap).lemma_wf_facts();
        }
        let e = self.get_entry(pd_index);
        proof {
            let v = e.value;
            assert(((v >> 0u32) & 1u32 == 0u32) == !(v & 1u32 == 1u32)) by {
                lemma_bit_u32(v, 0u32);
            }
        }
        if e.get_present() == 0 {
            let t = nb / 1024 + 1;
            let r = self.claim_index_page_tables(pd_index, t, flags, physmap);
            match r {
                Ok(_) => {},
                Err(_) => {
                    return Err(());
                },
            }
            proof {
                physmap.lemma_wf_facts();
                lemma_claimed_after_len(old(physmap)@, t as nat);
            }
        }
        let r2 = self.claim_index_page_frames(pd_index, pt_index, nb, flags, physmap);
        match r2 {
            Ok(_) => {},
            Err(_) => {
                return Err(());
            },
        }
        Ok(vaddr)
    }

    /// Like `get_page_frames_at_addr`, the pages taking physically adjacent
    /// frames: the first run of free frames. Fails when no such run exists
    /// (the new tables, if any, stay claimed).
    pub fn kget_page_frames_at_addr(&mut self, vaddr: VirtAddr, nb: usize, flags: u32, physmap: &mut Bitmaps) -> (res: Result<VirtAddr, ()>)
        requires
            old(self).wf(),
            old(physmap).wf(),
            kframes_at_pre(old(self)@, old(physmap).free_count(), vaddr, nb),
        ensures
            final(self).wf(),
            final(physmap).wf(),
            final(physmap).counter() == final(physmap)@.len(),
            kframes_at_outcome(old(self)@, old(physmap)@, vaddr, nb, flags, final(self)@, final(physmap)@, res),
    {
        let pd_index: usize = (vaddr >> 22u32) as usize;
        let pt_index: usize = ((vaddr & 0x3ff000u32) >> 12u32) as usize;
        proof {
            lemma_vaddr_split(vaddr);
            self.lemma_shape();
            old(physmap).lemma_wf_facts();
        }
        let e = self.get_entry(pd_index);
        proof {
            let v = e.value;
            assert(((v >> 0u32) & 1u32 == 0u32) == !(v & 1u32 == 1u32)) by {
                lemma_bit_u32(v, 0u32);
            }
        }
        if e.get_present() == 0 {
            let t = nb / 1024 + 1;
            let r = self.claim_index_page_tables(pd_index, t, flags, physmap);
            match r {
                Ok(_) => {},
                Err(_) => {
                    return Err(());
                },
            }
        }
        let r2 = self.kclaim_index_page_frames(pd_index, pt_index, nb, flags, physmap);
        match r2 {
            Ok(_) => {},
            Err(_) => {
                return Err(());
            },
        }
        Ok(vaddr)
    }

    /// Removes the table of entry `index` when the entry is present: the
    /// table is cleared, its frame freed and the entry zeroed.
    pub fn remove_page_table(&mut self, index: usize, physmap: &mut Bitmaps) -> (res: Result<(), ()>)
        requires
            old(self).wf(),
            old(physmap).wf(),
            index < 1024,
        ensures
            final(self).wf(),
            final(physmap).wf(),
            final(physmap).counter() == final(physmap)@.len(),
            present(old(self)@.0[index as int]) ==> {
                &&& res == Ok::<(), ()>(())
                &&& final(self)@.0 == old(self)@.0.update(index as int, 0u32)
                &&& final(self)@.1 == old(self)@.1.update(index as int, zero_table())
                &&& final(physmap)@ == old(physmap)@.remove(page_of(pde_paddr(old(self)@.0[index as int])))
            },
            !present(old(self)@.0[index as int]) ==> {
                &&& res == Err::<(), ()>(())
                &&& final(self)@ == old(self)@
                &&& final(physmap)@ == old(physmap)@
            },
    {
        proof {
            physmap.lemma_wf_facts();
        }
        let e = self.get_entry(index);
        proof {
            let v = e.value;
            assert(((v >> 0u32) & 1u32 == 1u32) == (v & 1u32 == 1u32)) by {
                lemma_bit_u32(v, 0u32);
            }
        }
        if e.get_present() == 1 {
            self.clear_table(index);
            let paddr = self.get_entry(index).get_paddr();
            physmap.free_page(paddr);
            self.set_entry(index, 0);
            return Ok(());
        } else {
            return Err(());
        }
    }

    /// Unmaps the page at `vaddr`, which must be page aligned (otherwise
    /// nothing happens), and frees its frame; when its table is left empty
    /// the table is removed too.
    pub fn remove_page_frame(&mut self, vaddr: VirtAddr, physmap: &mut Bitmaps)
        requires
            old(self).wf(),
            old(physmap).wf(),
            vaddr % 4096 == 0 ==> present(old(self)@.0[pd_of(vaddr)]),
        ensures
            final(self).wf(),
            final(physmap).wf(),
            final(physmap).counter() == final(physmap)@.len(),
            (final(self)@, final(physmap)@) == after_remove(old(self)@, old(physmap)@, vaddr),
    {
        proof {
            lemma_vaddr_bits(vaddr);
            lemma_vaddr_split(vaddr);
            self.lemma_shape();
            physmap.lemma_wf_facts();
        }
        if vaddr & 0xfffu32 != 0 {
            return;
        }
        let pd_index: usize = (vaddr >> 22u32) as usize;
        let i: usize = ((vaddr & 0x3ff000u32) >> 12u32) as usize;
        let paddr: PhysAddr = self.get_table_entry(pd_index, i).get_paddr();
        self.set_table_entry(pd_index, i, 0);
        let ghost mid = self@;
        let mut k: usize = 0;
        while k < 1024 && self.get_table_entry(pd_index, k).value == 0
            invariant
                self.wf(),
                self@ == mid,
                dir_shape(mid),
                pd_index < 1024,
                k <= 1024,
                forall|m: int| 0 <= m < k ==> #[trigger] mid.1[pd_index as int][m] == 0u32,
            decreases 1024 - k,
        {
            k += 1;
        }
        proof {
            if k == 1024 {
                assert(mid.1[pd_index as int] =~= zero_table());
            } else {
                assert(mid.1[pd_index as int][k as int] != 0u32);
                assert(mid.1[pd_index as int] != zero_table());
            }
        }
        if k == 1024 {
            let ret = self.remove_page_table(pd_index, physmap);
            proof {
                assert(self@.1 =~= old(self)@.1.update(pd_index as int, mid.1[pd_index as int]));
            }
        }
        physmap.free_page(paddr);
    }

    /// Removes the `nb` pages from `vaddr` on, one after the other, as
    /// `remove_page_frame` does; nothing happens when `vaddr` is not page
    /// aligned.
    pub fn remove_page_frames(&mut self, vaddr: VirtAddr, nb: usize, physmap: &mut Bitmaps)
        requires
            old(self).wf(),
            old(physmap).wf(),
            vaddr % 4096 == 0 ==> vaddr + nb * 4096 <= u32::MAX,
            vaddr % 4096 == 0 ==> removes_ok(old(self)@, old(physmap)@, vaddr, nb as nat),
        ensures
            final(self).wf(),
            final(physmap).wf(),
            final(physmap).counter() == final(physmap)@.len(),
            vaddr % 4096 != 0 ==> final(self)@ == old(self)@ && final(physmap)@ == old(physmap)@,
            vaddr % 4096 == 0 ==> (final(self)@, final(physmap)@) == after_removes(old(self)@, old(physmap)@, vaddr, nb as nat),
    {
        proof {
            lemma_vaddr_bits(vaddr);
            physmap.lemma_wf_facts();
        }
        if vaddr & 0xfffu32 != 0 {
            return;
        }
        let mut va = vaddr;
        let mut i: usize = 0;
        while i < nb
            invariant
                self.wf(),
                physmap.wf(),
                physmap.counter() == physmap@.len(),
                i <= nb,
                vaddr % 4096 == 0,
                vaddr + nb * 4096 <= u32::MAX,
                va == vaddr + i * 4096,
                removes_ok(old(self)@, old(physmap)@, vaddr, nb as nat),
                (self@, physmap@) == after_removes(old(self)@, old(physmap)@, vaddr, i as nat),
            decreases nb - i,
        {
            proof {
                let kk = i as nat;
                assert(present(after_removes(old(self)@, old(physmap)@, vaddr, kk).0.0[pd_of((vaddr + kk * 4096) as VirtAddr)]));
                assert(va == (vaddr + kk * 4096) as VirtAddr);
                assert(va % 4096 == 0);
            }
            self.remove_page_frame(va, physmap);
            va = va + 4096;
            i += 1;
        }
    }
}

} // verus!
