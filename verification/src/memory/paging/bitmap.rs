//! Physical page frame bitmap: one bit per 4 KiB frame of the 4 GiB
//! physical address space, eight frames per byte ("sector").

use vstd::prelude::*;
use vstd::set_lib::*;

use crate::memory::PhysAddr;

verus! {

/// Size in bytes of a page frame.
pub const PAGE_SIZE: usize = 4096;

/// Bytes of physical memory described by one byte of the bitmap.
pub const SECTOR_SIZE: usize = 32768;

/// Number of bytes of the bitmap (4 GiB / SECTOR_SIZE).
pub const SECTOR_NUMBER: usize = 131072;

/// Number of page frames described by the bitmap.
pub const PAGE_NUMBER: usize = 1048576;

/// Bit `s` of byte `b` is set.
pub open spec fn bit_set(b: u8, s: u8) -> bool {
    (b >> s) & 1u8 == 1u8
}

/// Index of the page frame that contains `addr`.
pub open spec fn page_of(addr: PhysAddr) -> int {
    addr as int / PAGE_SIZE as int
}

/// Physical address of the first byte of page frame `p`.
pub open spec fn frame_addr(p: int) -> int {
    p * PAGE_SIZE as int
}

/// `p` is the lowest page frame that is not in `used`.
pub open spec fn lowest_free(used: Set<int>, p: int) -> bool {
    &&& 0 <= p < PAGE_NUMBER
    &&& !used.contains(p)
    &&& forall|q: int| 0 <= q < p ==> #[trigger] used.contains(q)
}

/// The lowest page frame that is not in `used`.
pub open spec fn first_free(used: Set<int>) -> int {
    choose|p: int| lowest_free(used, p)
}

pub proof fn lemma_first_free_unique(used: Set<int>, p: int)
    requires
        lowest_free(used, p),
    ensures
        first_free(used) == p,
        lowest_free(used, first_free(used)),
{
    let q = first_free(used);
    assert(lowest_free(used, q));
    if q < p {
        assert(used.contains(q));
    } else if p < q {
        assert(used.contains(p));
    }
}

/// `used` after `n` successive claims of the lowest free frame.
pub open spec fn claimed_after(used: Set<int>, n: nat) -> Set<int>
    decreases n,
{
    if n == 0 {
        used
    } else {
        let s = claimed_after(used, (n - 1) as nat);
        s.insert(first_free(s))
    }
}

/// The frame taken by the `k`-th of successive claims of the lowest free
/// frame, starting from `used`.
pub open spec fn nth_free(used: Set<int>, k: nat) -> int {
    first_free(claimed_after(used, k))
}

/// All pages of `start .. start + nb` are outside `used`.
pub open spec fn run_free(used: Set<int>, start: int, nb: int) -> bool {
    forall|q: int| start <= q < start + nb ==> !used.contains(q)
}

/// `p` starts the first run of `nb` free frames.
pub open spec fn is_first_fit(used: Set<int>, nb: int, p: int) -> bool {
    &&& 0 <= p
    &&& p + nb <= PAGE_NUMBER
    &&& run_free(used, p, nb)
    &&& forall|p2: int| 0 <= p2 < p ==> !#[trigger] run_free(used, p2, nb)
}

/// The first frame of the first run of `nb` free frames.
pub open spec fn first_fit(used: Set<int>, nb: int) -> int {
    choose|p: int| is_first_fit(used, nb, p)
}

pub proof fn lemma_first_fit_unique(used: Set<int>, nb: int, p: int)
    requires
        is_first_fit(used, nb, p),
    ensures
        first_fit(used, nb) == p,
        is_first_fit(used, nb, first_fit(used, nb)),
{
    let q = first_fit(used, nb);
    assert(is_first_fit(used, nb, q));
    if q < p {
        assert(!run_free(used, q, nb));
    } else if p < q {
        assert(!run_free(used, p, nb));
    }
}

/// The set `used` with every page of `start .. start + nb` added.
pub open spec fn with_run(used: Set<int>, start: int, nb: int) -> Set<int> {
    used.union(set_int_range(start, start + nb))
}

proof fn lemma_bit_or(b: u8, s: u8, t: u8)
    requires
        s < 8,
        t < 8,
    ensures
        bit_set(b | (1u8 << s), t) == (bit_set(b, t) || t == s),
{
    assert(((b | (1u8 << s)) >> t) & 1u8 == 1u8 <==> (((b >> t) & 1u8 == 1u8) || t == s))
        by (bit_vector)
        requires
            s < 8u8,
            t < 8u8,
    ;
}

proof fn lemma_bit_clear(b: u8, s: u8, t: u8)
    requires
        s < 8,
        t < 8,
    ensures
        bit_set(b & (0xffu8 ^ (1u8 << s)), t) == (bit_set(b, t) && t != s),
{
    assert(((b & (0xffu8 ^ (1u8 << s))) >> t) & 1u8 == 1u8 <==> (((b >> t) & 1u8 == 1u8) && t
        != s)) by (bit_vector)
        requires
            s < 8u8,
            t < 8u8,
    ;
}

proof fn lemma_bit_test(b: u8, s: u8)
    requires
        s < 8,
    ensures
        (b & (1u8 << s) != 0) == bit_set(b, s),
        (b & (1u8 << s) == (1u8 << s)) == bit_set(b, s),
{
    assert((b & (1u8 << s) != 0u8) == ((b >> s) & 1u8 == 1u8)) by (bit_vector)
        requires
            s < 8u8,
    ;
    assert((b & (1u8 << s) == (1u8 << s)) == ((b >> s) & 1u8 == 1u8)) by (bit_vector)
        requires
            s < 8u8,
    ;
}

proof fn lemma_full_byte(b: u8, t: u8)
    requires
        t < 8,
        b == 0xffu8,
    ensures
        bit_set(b, t),
{
    assert((b >> t) & 1u8 == 1u8) by (bit_vector)
        requires
            t < 8u8,
            b == 0xffu8,
    ;
}

proof fn lemma_all_bits_full(b: u8)
    requires
        bit_set(b, 0),
        bit_set(b, 1),
        bit_set(b, 2),
        bit_set(b, 3),
        bit_set(b, 4),
        bit_set(b, 5),
        bit_set(b, 6),
        bit_set(b, 7),
    ensures
        b == 0xffu8,
{
    assert(b == 0xffu8) by (bit_vector)
        requires
            (b >> 0u8) & 1u8 == 1u8,
            (b >> 1u8) & 1u8 == 1u8,
            (b >> 2u8) & 1u8 == 1u8,
            (b >> 3u8) & 1u8 == 1u8,
            (b >> 4u8) & 1u8 == 1u8,
            (b >> 5u8) & 1u8 == 1u8,
            (b >> 6u8) & 1u8 == 1u8,
            (b >> 7u8) & 1u8 == 1u8,
    ;
}

proof fn lemma_page_split(addr: PhysAddr)
    ensures
        (addr as int / SECTOR_SIZE as int) * 8 + (addr as int % SECTOR_SIZE as int)
            / PAGE_SIZE as int == page_of(addr),
        (addr as int / SECTOR_SIZE as int) < SECTOR_NUMBER as int,
        ((addr as int % SECTOR_SIZE as int) / PAGE_SIZE as int) < 8,
        page_of(addr) / 8 == addr as int / SECTOR_SIZE as int,
        page_of(addr) % 8 == (addr as int % SECTOR_SIZE as int) / PAGE_SIZE as int,
        0 <= page_of(addr) < PAGE_NUMBER,
{
    let a = addr as int;
    assert(a / 32768 * 8 + (a % 32768) / 4096 == a / 4096) by (nonlinear_arith)
        requires
            0 <= a,
    {
        vstd::arithmetic::div_mod::lemma_fundamental_div_mod(a, 32768);
        vstd::arithmetic::div_mod::lemma_fundamental_div_mod(a % 32768, 4096);
    }
    assert(a / 4096 / 8 == a / 32768) by {
        vstd::arithmetic::div_mod::lemma_div_denominator(a, 4096, 8);
    }
    assert(a / 4096 < 1048576);
}

/// The bitmap of physical page frames.
pub struct Bitmaps {
    maps: Vec<u8>,
    /// Number of frames currently marked as used.
    pub used: usize,
    pages: Ghost<Set<int>>,
}

impl Bitmaps {
    /// Frame `p` is marked in the bitmap bytes.
    pub closed spec fn bit_of(&self, p: int) -> bool {
        bit_set(self.maps@[p / 8], (p % 8) as u8)
    }

    /// The set of indices of the used page frames.
    pub closed spec fn view(&self) -> Set<int> {
        self.pages@
    }

    /// Value of the `used` counter: the number of frames in use on a
    /// well-formed bitmap (see `lemma_wf_facts`).
    pub closed spec fn counter(&self) -> int {
        self.used as int
    }

    /// Number of frames that are still free.
    pub open spec fn free_count(&self) -> int {
        PAGE_NUMBER - self@.len()
    }

    /// Internal consistency: the bytes, the ghost set and the counter agree.
    pub closed spec fn wf(&self) -> bool {
        &&& self.maps@.len() == SECTOR_NUMBER
        &&& self.pages@.finite()
        &&& forall|p: int| #[trigger] self.pages@.contains(p) ==> 0 <= p < PAGE_NUMBER
        &&& forall|p: int| 0 <= p < PAGE_NUMBER ==> (self.pages@.contains(p) <==> #[trigger] self.bit_of(p))
        &&& self.used as int == self.pages@.len()
    }

    /// On a well-formed bitmap the used frames are finitely many, within
    /// range, and the `used` counter counts them.
    pub proof fn lemma_wf_facts(&self)
        requires
            self.wf(),
        ensures
            self@.finite(),
            self@.len() <= PAGE_NUMBER,
            self.counter() == self@.len(),
            forall|p: int| #[trigger] self@.contains(p) ==> 0 <= p < PAGE_NUMBER,
    {
        lemma_int_range(0, PAGE_NUMBER as int);
        assert(self.pages@.subset_of(set_int_range(0, PAGE_NUMBER as int)));
        lemma_len_subset(self.pages@, set_int_range(0, PAGE_NUMBER as int));
    }

    /// The `used` counter: on a well-formed bitmap, the number of frames in
    /// use.
    pub fn used_frames(&self) -> (res: usize)
        requires
            self.wf(),
        ensures
            res == self.counter(),
            res == self@.len(),
    {
        self.used
    }

    /// An empty bitmap: every frame is free.
    pub fn new() -> (res: Bitmaps)
        ensures
            res.wf(),
            res@ == Set::<int>::empty(),
            res.counter() == 0,
    {
        let mut maps: Vec<u8> = Vec::new();
        let mut i: usize = 0;
        while i < SECTOR_NUMBER
            invariant
                i <= SECTOR_NUMBER,
                maps@.len() == i,
                forall|k: int| 0 <= k < i ==> maps@[k] == 0u8,
            decreases SECTOR_NUMBER - i,
        {
            maps.push(0u8);
            i += 1;
        }
        let res = Bitmaps { maps, used: 0, pages: Ghost(Set::empty()) };
        assert forall|p: int| 0 <= p < PAGE_NUMBER implies (res.pages@.contains(p)
            <==> #[trigger] res.bit_of(p)) by {
            let s = (p % 8) as u8;
            assert(res.maps@[p / 8] == 0u8);
            assert((0u8 >> s) & 1u8 == 0u8) by (bit_vector);
        }
        res
    }

    /// Frame `p` is used.
    pub fn is_used_page(&self, p: usize) -> (res: bool)
        requires
            self.wf(),
            p < PAGE_NUMBER,
        ensures
            res == self@.contains(p as int),
    {
        let b = self.maps[p / 8];
        let s: u8 = (p % 8) as u8;
        proof {
            assert(self.bit_of(p as int) == bit_set(b, s));
        }
        (b >> s) & 1u8 == 1u8
    }

    /// Marks frame `p`, which must be free, as used.
    fn mark(&mut self, p: usize)
        requires
            old(self).wf(),
            p < PAGE_NUMBER,
            !old(self)@.contains(p as int),
        ensures
            final(self).wf(),
            final(self)@ == old(self)@.insert(p as int),
    {
        proof {
            self.lemma_wf_facts();
            assert(!self.pages@.contains(p as int));
            assert(self.pages@.insert(p as int).len() == self.pages@.len() + 1);
            assert(self.pages@.insert(p as int).subset_of(set_int_range(0, PAGE_NUMBER as int)));
            lemma_int_range(0, PAGE_NUMBER as int);
            lemma_len_subset(self.pages@.insert(p as int), set_int_range(0, PAGE_NUMBER as int));
        }
        let i = p / 8;
        let s: u8 = (p % 8) as u8;
        let ghost old_maps = self.maps@;
        let ghost old_pages = self.pages@;
        assert forall|q: int| 0 <= q < PAGE_NUMBER implies (old_pages.contains(q) <==> bit_set(
            old_maps[q / 8],
            (q % 8) as u8,
        )) by {
            assert(self.bit_of(q) == bit_set(old_maps[q / 8], (q % 8) as u8));
        }
        let b = self.maps[i];
        self.maps[i] = b | (1u8 << s);
        self.used = self.used + 1;
        self.pages = Ghost(self.pages@.insert(p as int));
        assert forall|q: int| 0 <= q < PAGE_NUMBER implies (self.pages@.contains(q)
            <==> #[trigger] self.bit_of(q)) by {
            assert(old_pages.contains(q) <==> bit_set(old_maps[q / 8], (q % 8) as u8));
            if q / 8 == i as int {
                lemma_bit_or(b, s, (q % 8) as u8);
                assert(q == p as int <==> q % 8 == s as int);
            } else {
                assert(self.maps@[q / 8] == old_maps[q / 8]);
                assert(q != p as int);
            }
        }
    }

    /// Marks frame `p`, which must be used, as free.
    fn unmark(&mut self, p: usize)
        requires
            old(self).wf(),
            p < PAGE_NUMBER,
            old(self)@.contains(p as int),
        ensures
            final(self).wf(),
            final(self)@ == old(self)@.remove(p as int),
    {
        proof {
            self.lemma_wf_facts();
        }
        let i = p / 8;
        let s: u8 = (p % 8) as u8;
        let ghost old_maps = self.maps@;
        let ghost old_pages = self.pages@;
        assert forall|q: int| 0 <= q < PAGE_NUMBER implies (old_pages.contains(q) <==> bit_set(
            old_maps[q / 8],
            (q % 8) as u8,
        )) by {
            assert(self.bit_of(q) == bit_set(old_maps[q / 8], (q % 8) as u8));
        }
        let b = self.maps[i];
        self.maps[i] = b & (0xffu8 ^ (1u8 << s));
        self.used = self.used - 1;
        self.pages = Ghost(self.pages@.remove(p as int));
        assert forall|q: int| 0 <= q < PAGE_NUMBER implies (self.pages@.contains(q)
            <==> #[trigger] self.bit_of(q)) by {
            assert(old_pages.contains(q) <==> bit_set(old_maps[q / 8], (q % 8) as u8));
            if q / 8 == i as int {
                lemma_bit_clear(b, s, (q % 8) as u8);
                assert(q == p as int <==> q % 8 == s as int);
            } else {
                assert(self.maps@[q / 8] == old_maps[q / 8]);
                assert(q != p as int);
            }
        }
    }

    /// Claims the frame that contains `addr`. Fails with the bitmap byte
    /// index when the frame is already used.
    pub fn claim(&mut self, addr: PhysAddr) -> (res: Result<PhysAddr, usize>)
        requires
            old(self).wf(),
        ensures
            final(self).wf(),
            old(self)@.contains(page_of(addr)) ==> {
                &&& res == Err::<PhysAddr, usize>((addr / SECTOR_SIZE as u32) as usize)
                &&& final(self)@ == old(self)@
            },
            !old(self)@.contains(page_of(addr)) ==> {
                &&& res == Ok::<PhysAddr, usize>((frame_addr(page_of(addr))) as PhysAddr)
                &&& final(self)@ == old(self)@.insert(page_of(addr))
            },
            final(self).counter() == final(self)@.len(),
    {
        proof {
            lemma_page_split(addr);
        }
        let i: usize = addr as usize / SECTOR_SIZE;
        let shift: u8 = ((addr as usize % SECTOR_SIZE) / PAGE_SIZE) as u8;
        let b = self.maps[i];
        proof {
            lemma_bit_test(b, shift);
            assert(self.bit_of(page_of(addr)) == bit_set(b, shift));
        }
        if b & (1u8 << shift) != 0 {
            return Err(i);
        }
        let p = i * 8 + shift as usize;
        self.mark(p);
        Ok((i * SECTOR_SIZE + (shift as usize) * PAGE_SIZE) as PhysAddr)
    }

    /// Claims the `range` frames starting at the one that contains `addr`,
    /// stopping at the first frame that is already used.
    pub fn claim_range(&mut self, addr: PhysAddr, range: usize) -> (res: Result<PhysAddr, usize>)
        requires
            old(self).wf(),
            addr as int + range * PAGE_SIZE <= u32::MAX as int + 1,
        ensures
            final(self).wf(),
            final(self).counter() == final(self)@.len(),
            match res {
                Ok(a) => {
                    &&& a == addr
                    &&& run_free(old(self)@, page_of(addr), range as int)
                    &&& final(self)@ == with_run(old(self)@, page_of(addr), range as int)
                },
                Err(e) => exists|k: int|
                    0 <= k < range && run_free(old(self)@, page_of(addr), k) && #[trigger] old(self)@.contains(page_of(addr) + k) && e == (page_of(addr) + k) / 8 && final(self)@
                        == with_run(old(self)@, page_of(addr), k),
            },
    {
        let mut i: usize = 0;
        proof {
            assert(self.pages@ =~= with_run(old(self)@, page_of(addr), 0));
        }
        while i < range
            invariant
                i <= range,
                self.wf(),
                addr as int + range * PAGE_SIZE <= u32::MAX as int + 1,
                run_free(old(self)@, page_of(addr), i as int),
                self@ == with_run(old(self)@, page_of(addr), i as int),
                forall|q: int| #[trigger] old(self)@.contains(q) ==> 0 <= q < PAGE_NUMBER,
            decreases range - i,
        {
            let a: PhysAddr = addr + (i * PAGE_SIZE) as u32;
            proof {
                assert(page_of(a) == page_of(addr) + i) by {
                    vstd::arithmetic::div_mod::lemma_hoist_over_denominator(addr as int, i as int, 4096);
                }
                assert(self@.contains(page_of(a)) == old(self)@.contains(page_of(a)));
            }
            let r = self.claim(a);
            match r {
                Ok(_) => {},
                Err(e) => {
                    proof {
                        assert(page_of(a) / 8 == e as int) by {
                            lemma_page_split(a);
                        }
                    }
                    return Err(e);
                },
            }
            proof {
                assert(self@ =~= with_run(old(self)@, page_of(addr), i + 1));
            }
            i += 1;
        }
        Ok(addr)
    }

    /// Claims the first run of `nb` free frames that are physically next to
    /// each other and returns the address of the first one.
    pub fn get_pages(&mut self, nb: usize) -> (res: Result<PhysAddr, ()>)
        requires
            old(self).wf(),
        ensures
            final(self).wf(),
            final(self).counter() == final(self)@.len(),
            match res {
                Ok(a) => {
                    let p = first_fit(old(self)@, nb as int);
                    &&& is_first_fit(old(self)@, nb as int, p)
                    &&& a == frame_addr(p)
                    &&& final(self)@ == with_run(old(self)@, p, nb as int)
                },
                Err(_) => {
                    &&& final(self)@ == old(self)@
                    &&& forall|p2: int|
                        0 <= p2 && p2 + nb <= PAGE_NUMBER ==> !#[trigger] run_free(
                            old(self)@,
                            p2,
                            nb as int,
                        )
                },
            },
    {
        let mut i: usize = 0;
        let mut saved_i: usize = 0;
        let mut shift: u8 = 0;
        let mut saved_shift: u8 = 0;
        let mut count: usize = 0;
        proof {
            self.lemma_wf_facts();
        }
        while count < nb && i < SECTOR_NUMBER
            invariant
                self.wf(),
                self@ == old(self)@,
                i <= SECTOR_NUMBER,
                shift <= 8,
                i == SECTOR_NUMBER ==> shift == 0,
                count == nb ==> i < SECTOR_NUMBER,
                shift > 0 && i < SECTOR_NUMBER ==> self.maps@[i as int] != 0xffu8,
                count <= nb,
                count <= i * 8 + shift,
                saved_i < SECTOR_NUMBER,
                saved_shift < 8,
                count > 0 ==> saved_i * 8 + saved_shift == i * 8 + shift - count,
                run_free(self@, i * 8 + shift - count, count as int),
                forall|p2: int|
                    0 <= p2 && p2 + nb <= i * 8 + shift && p2 < i * 8 + shift - count
                        ==> !#[trigger] run_free(self@, p2, nb as int),
                count < i * 8 + shift ==> self@.contains(i * 8 + shift - count - 1),
            decreases SECTOR_NUMBER * 9 - (i * 9 + shift),
        {
            let b = self.maps[i];
            if b == 0xffu8 || shift == 8 {
                if b == 0xffu8 {
                    proof {
                        assert(shift == 0);
                        assert forall|t: int| 0 <= t < 8 implies #[trigger] self@.contains(
                            i * 8 + t,
                        ) by {
                            lemma_full_byte(b, t as u8);
                            assert(self.bit_of(i * 8 + t));
                        }
                        assert forall|p2: int|
                            0 <= p2 && p2 + nb <= (i + 1) * 8 && p2 < (i + 1) * 8
                                implies !#[trigger] run_free(self@, p2, nb as int) by {
                            if p2 + nb > i * 8 {
                                assert(self@.contains(i * 8 + (p2 + nb - 1 - i * 8)));
                                assert(self@.contains(p2 + nb - 1));
                            }
                        }
                        assert(self@.contains(i * 8 + 7));
                    }
                    count = 0;
                }
                shift = 0;
                i += 1;
                continue;
            }
            proof {
                assert(self.bit_of(i * 8 + shift) == bit_set(b, shift));
                assert(((b >> shift) & 1u8) == 0u8 || ((b >> shift) & 1u8) == 1u8) by (bit_vector);
            }
            if (b >> shift) & 1u8 == 0u8 {
                if count == 0 {
                    saved_i = i;
                    saved_shift = shift;
                }
                proof {
                    assert(!self@.contains(i * 8 + shift));
                    assert forall|p2: int|
                        0 <= p2 && p2 + nb <= i * 8 + shift + 1 && p2 < i * 8 + shift - count
                            implies !#[trigger] run_free(self@, p2, nb as int) by {
                        if p2 + nb == i * 8 + shift + 1 {
                            assert(self@.contains(i * 8 + shift - count - 1));
                        }
                    }
                }
                count += 1;
            } else {
                proof {
                    assert(self@.contains(i * 8 + shift));
                    assert forall|p2: int|
                        0 <= p2 && p2 + nb <= i * 8 + shift + 1 && p2 < i * 8 + shift + 1
                            implies !#[trigger] run_free(self@, p2, nb as int) by {
                        if p2 + nb == i * 8 + shift + 1 {
                            assert(self@.contains(p2 + nb - 1));
                        } else if p2 >= i * 8 + shift - count {
                            assert(false);
                        }
                    }
                }
                count = 0;
            }
            shift += 1;
        }
        if i == SECTOR_NUMBER {
            return Err(());
        }
        let ghost start: int = i * 8 + shift - count;
        let ghost old_pages = self@;
        proof {
            if nb == 0 {
                assert(count == 0);
            }
            assert(start + nb <= PAGE_NUMBER);
        }
        let mut k: usize = 0;
        let first: usize = if count > 0 {
            saved_i * 8 + saved_shift as usize
        } else {
            0
        };
        let mut p: usize = first;
        let ghost p0 = first as int;
        proof {
            if count == 0 {
                assert(nb == 0);
            }
            assert(self@ =~= with_run(old_pages, p0, 0));
        }
        while k < count
            invariant
                self.wf(),
                count == nb,
                k <= count,
                p == p0 + k,
                p0 + count <= PAGE_NUMBER,
                run_free(old_pages, p0, count as int),
                self@ == with_run(old_pages, p0, k as int),
            decreases count - k,
        {
            self.mark(p);
            proof {
                assert(self@ =~= with_run(old_pages, p0, k + 1));
            }
            p += 1;
            k += 1;
        }
        let r = first;
        proof {
            assert(run_free(old(self)@, p0, nb as int));
            assert(is_first_fit(old(self)@, nb as int, p0));
            lemma_first_fit_unique(old(self)@, nb as int, p0);
            assert(r * 4096 < 0x1_0000_0000) by (nonlinear_arith)
                requires
                    r < 1048576,
            ;
        }
        Ok((r * PAGE_SIZE) as PhysAddr)
    }

    /// Claims the free frame with the lowest address and returns its address.
    pub fn get_page(&mut self) -> (res: Result<PhysAddr, ()>)
        requires
            old(self).wf(),
            old(self).free_count() > 0,
        ensures
            final(self).wf(),
            final(self).counter() == final(self)@.len(),
            match res {
                Ok(a) => {
                    let p = first_free(old(self)@);
                    &&& lowest_free(old(self)@, p)
                    &&& a == frame_addr(p)
                    &&& final(self)@ == old(self)@.insert(p)
                },
                Err(_) => false,
            },
    {
        proof {
            self.lemma_wf_facts();
        }
        let mut i: usize = 0;
        while i < SECTOR_NUMBER && self.maps[i] == 0xffu8
            invariant
                self.wf(),
                self@ == old(self)@,
                i <= SECTOR_NUMBER,
                forall|q: int| 0 <= q < i * 8 ==> #[trigger] self@.contains(q),
            decreases SECTOR_NUMBER - i,
        {
            proof {
                assert forall|q: int| 0 <= q < (i + 1) * 8 implies #[trigger] self@.contains(q) by {
                    if q >= i * 8 {
                        lemma_full_byte(self.maps@[i as int], (q - i * 8) as u8);
                        assert(self.bit_of(q));
                    }
                }
            }
            i += 1;
        }
        if i == SECTOR_NUMBER {
            proof {
                lemma_int_range(0, PAGE_NUMBER as int);
                assert(set_int_range(0, PAGE_NUMBER as int).subset_of(self@));
                lemma_len_subset(set_int_range(0, PAGE_NUMBER as int), self@);
            }
            return Err(());
        }
        let b = self.maps[i];
        let mut shift: u8 = 0;
        while shift < 8 && (b >> shift) & 1u8 == 1u8
            invariant
                self.wf(),
                self@ == old(self)@,
                i < SECTOR_NUMBER,
                b == self.maps@[i as int],
                shift <= 8,
                forall|t: u8| t < shift ==> #[trigger] bit_set(b, t),
            decreases 8 - shift,
        {
            shift += 1;
        }
        if shift == 8 {
            proof {
                assert(bit_set(b, 0u8) && bit_set(b, 1u8) && bit_set(b, 2u8) && bit_set(b, 3u8)
                    && bit_set(b, 4u8) && bit_set(b, 5u8) && bit_set(b, 6u8) && bit_set(b, 7u8));
                lemma_all_bits_full(b);
            }
            return Err(());
        }
        let p = i * 8 + shift as usize;
        proof {
            assert(!self.bit_of(p as int));
            assert forall|q: int| 0 <= q < p implies #[trigger] self@.contains(q) by {
                if q >= i * 8 {
                    assert(bit_set(b, (q - i * 8) as u8));
                    assert(self.bit_of(q));
                }
            }
            assert(lowest_free(old(self)@, p as int));
            lemma_first_free_unique(old(self)@, p as int);
        }
        self.mark(p);
        proof {
            assert(p * 4096 < 0x1_0000_0000) by (nonlinear_arith)
                requires
                    p < 1048576,
            ;
        }
        Ok((p * PAGE_SIZE) as PhysAddr)
    }

    /// Marks the frame that contains `addr` as free again; a frame that is
    /// already free is left as it is.
    pub fn free_page(&mut self, addr: PhysAddr)
        requires
            old(self).wf(),
        ensures
            final(self).wf(),
            final(self).counter() == final(self)@.len(),
            final(self)@ == old(self)@.remove(page_of(addr)),
    {
        proof {
            lemma_page_split(addr);
        }
        let i: usize = (addr / SECTOR_SIZE as u32) as usize;
        let shift: u8 = (addr % SECTOR_SIZE as u32 / PAGE_SIZE as u32) as u8;
        let b = self.maps[i];
        proof {
            lemma_bit_test(b, shift);
            assert(self.bit_of(page_of(addr)) == bit_set(b, shift));
        }
        if b & (1u8 << shift) == (1u8 << shift) {
            self.unmark(i * 8 + shift as usize);
        } else {
            proof {
                assert(self@.remove(page_of(addr)) =~= self@);
            }
        }
    }
}

/// Freeing the frame that `get_page` gave leaves the used frames as they
/// were before the call.
pub proof fn lemma_free_page_undoes_get_page(used: Set<int>)
    requires
        exists|p: int| lowest_free(used, p),
    ensures
        used.insert(first_free(used)).remove(page_of(frame_addr(first_free(used)) as PhysAddr)) == used,
{
    let p = choose|p: int| lowest_free(used, p);
    lemma_first_free_unique(used, p);
    assert(page_of(frame_addr(p) as PhysAddr) == p);
    assert(used.insert(p).remove(p) =~= used);
}

/// Freeing the frame that `claim` took, when it was free, leaves the used
/// frames as they were before the call.
pub proof fn lemma_free_page_undoes_claim(used: Set<int>, addr: PhysAddr)
    requires
        !used.contains(page_of(addr)),
    ensures
        used.insert(page_of(addr)).remove(page_of(frame_addr(page_of(addr)) as PhysAddr)) == used,
{
    assert(page_of(frame_addr(page_of(addr)) as PhysAddr) == page_of(addr));
    assert(used.insert(page_of(addr)).remove(page_of(addr)) =~= used);
}

/// Two successive calls of `get_page` give two frames, the second above the
/// first.
pub proof fn lemma_get_page_increases(used: Set<int>)
    requires
        exists|p: int| lowest_free(used, p),
        exists|p: int| lowest_free(used.insert(first_free(used)), p),
    ensures
        first_free(used) < first_free(used.insert(first_free(used))),
{
    let p = choose|p: int| lowest_free(used, p);
    lemma_first_free_unique(used, p);
    let after = used.insert(p);
    let q = choose|q: int| lowest_free(after, q);
    lemma_first_free_unique(after, q);
    if q <= p {
        if q < p {
            assert(used.contains(q));
        }
        assert(after.contains(q));
    }
}

} // verus!
