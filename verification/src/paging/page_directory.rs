//! Page directory of the first paging layout.

use vstd::prelude::*;

use crate::memory::paging::page_directory::{get_vaddr, pde_paddr, vaddr_of};
use crate::memory::paging::page_table::{bit, lemma_bit_u32, present};
use crate::memory::{PhysAddr, VirtAddr};
use crate::paging::page_table::{first_free, full, free_slot, lemma_free_slot, with_frame, PageTable};

verus! {

/// One entry of the page directory.
#[derive(Copy, Clone)]
pub struct PageDirectoryEntry {
    pub value: u32,
}

impl From<u32> for PageDirectoryEntry {
    fn from(item: u32) -> (res: Self) {
        PageDirectoryEntry { value: item }
    }
}

impl vstd::std_specs::convert::FromSpecImpl<u32> for PageDirectoryEntry {
    open spec fn obeys_from_spec() -> bool {
        true
    }

    open spec fn from_spec(v: u32) -> Self {
        PageDirectoryEntry { value: v }
    }
}

impl View for PageDirectoryEntry {
    type V = u32;

    open spec fn view(&self) -> u32 {
        self.value
    }
}

impl PageDirectoryEntry {
    pub fn new(value: u32) -> (res: Self)
        ensures
            res@ == value,
    {
        Self { value }
    }

    pub fn get_present(&self) -> (res: u8)
        ensures
            res == bit(self@, 0),
    {
        let v = self.value;
        proof {
            lemma_bit_u32(v, 0u32);
        }
        ((v >> 0u32) & 1u32) as u8
    }

    pub fn get_writable(&self) -> (res: u8)
        ensures
            res == bit(self@, 1),
    {
        let v = self.value;
        proof {
            lemma_bit_u32(v, 1u32);
        }
        ((v >> 1u32) & 1u32) as u8
    }

    pub fn get_user_supervisor(&self) -> (res: u8)
        ensures
            res == bit(self@, 2),
    {
        let v = self.value;
        proof {
            lemma_bit_u32(v, 2u32);
        }
        ((v >> 2u32) & 1u32) as u8
    }

    pub fn get_pwt(&self) -> (res: u8)
        ensures
            res == bit(self@, 3),
    {
        let v = self.value;
        proof {
            lemma_bit_u32(v, 3u32);
        }
        ((v >> 3u32) & 1u32) as u8
    }

    pub fn get_pcd(&self) -> (res: u8)
        ensures
            res == bit(self@, 4),
    {
        let v = self.value;
        proof {
            lemma_bit_u32(v, 4u32);
        }
        ((v >> 4u32) & 1u32) as u8
    }

    pub fn get_accessed(&self) -> (res: u8)
        ensures
            res == bit(self@, 5),
    {
        let v = self.value;
        proof {
            lemma_bit_u32(v, 5u32);
        }
        ((v >> 5u32) & 1u32) as u8
    }

    /// Page size bit: set for an entry that maps a 4 MiB page directly.
    pub fn get_ps(&self) -> (res: u8)
        ensures
            res == bit(self@, 7),
    {
        let v = self.value;
        proof {
            lemma_bit_u32(v, 7u32);
        }
        ((v >> 7u32) & 1u32) as u8
    }

    /// Dirty bit of a 4 MiB page; 0 for an entry that references a table.
    pub fn get_dirty(&self) -> (res: u8)
        requires
            bit(self@, 7) == 1,
        ensures
            res == bit(self@, 6),
    {
        let v = self.value;
        proof {
            lemma_bit_u32(v, 6u32);
        }
        ((v >> 6u32) & 1u32) as u8
    }

    pub fn get_global(&self) -> (res: u8)
        requires
            bit(self@, 7) == 1,
        ensures
            res == bit(self@, 8),
    {
        let v = self.value;
        proof {
            lemma_bit_u32(v, 8u32);
        }
        ((v >> 8u32) & 1u32) as u8
    }

    pub fn get_avl(&self) -> (res: u8)
        ensures
            res == if bit(self@, 7) == 0 {
                (self@ >> 9u32) & 7u32
            } else {
                ((self@ & 0b111100000000u32) >> 8u32) | ((self@ & 0b01000000u32) >> 2u32)
            },
    {
        let v = self.value;
        if self.get_ps() == 0 {
            proof {
                lemma_bit_u32(v, 9u32);
            }
            ((v >> 9u32) & 7u32) as u8
        } else {
            proof {
                lemma_bit_u32(v, 0u32);
            }
            (((v & 0b111100000000u32) >> 8u32) | ((v & 0b01000000u32) >> 2u32)) as u8
        }
    }

    /// Page attribute table bit of a 4 MiB page; 0 for a table entry.
    pub fn get_pat(&self) -> (res: u8)
        requires
            bit(self@, 7) == 1,
        ensures
            res == bit(self@, 12),
    {
        let v = self.value;
        proof {
            lemma_bit_u32(v, 12u32);
        }
        ((v >> 12u32) & 1u32) as u8
    }

    pub fn get_rsvd(&self) -> (res: u8)
        requires
            bit(self@, 7) == 1,
        ensures
            res == bit(self@, 20),
    {
        let v = self.value;
        proof {
            lemma_bit_u32(v, 20u32);
        }
        ((v >> 20u32) & 1u32) as u8
    }

    pub fn get_paddr(&self) -> (res: PhysAddr)
        ensures
            res == pde_paddr(self@),
    {
        if self.get_ps() == 0 {
            self.value & 0xfffff000u32
        } else {
            ((self.value & 0xfff00000u32) >> 10u32) | ((self.value & 0b111111110000000000000u32)
                << 19u32)
        }
    }
}


/// The page directory: 1024 entries.
pub struct PageDirectory {
    pub entries: Vec<PageDirectoryEntry>,
}

impl View for PageDirectory {
    type V = Seq<u32>;

    open spec fn view(&self) -> Seq<u32> {
        self.entries@.map_values(|e: PageDirectoryEntry| e.value)
    }
}

impl PageDirectory {
    /// A directory whose 1024 entries are writable and not present.
    pub fn new() -> (res: Self)
        ensures
            res@ == Seq::new(1024, |i: int| 2u32),
    {
        let mut entries: Vec<PageDirectoryEntry> = Vec::new();
        let mut i: usize = 0;
        while i < 1024
            invariant
                i <= 1024,
                entries@.len() == i,
                forall|k: int| 0 <= k < i ==> entries@[k].value == 2u32,
            decreases 1024 - i,
        {
            entries.push(PageDirectoryEntry::new(0x00000002));
            i += 1;
        }
        let res = PageDirectory { entries };
        assert(res@ =~= Seq::new(1024, |i: int| 2u32));
        res
    }
}


/// The entries of each page table.
pub open spec fn tables_view(tables: Seq<PageTable>) -> Seq<Seq<u32>> {
    tables.map_values(|t: PageTable| t@)
}

/// One table of 1024 entries for each directory entry.
pub open spec fn tables_wf(tables: Seq<PageTable>) -> bool {
    &&& tables.len() == 1024
    &&& forall|i: int| 0 <= i < 1024 ==> #[trigger] tables[i].wf()
}

/// Directory entry `i` is present and its table has an entry that is not.
pub open spec fn has_room(dir: Seq<u32>, tables: Seq<Seq<u32>>, i: int) -> bool {
    present(dir[i]) && !full(tables[i])
}

/// `k` is the first directory entry from 1 on whose table has room.
pub open spec fn first_room(dir: Seq<u32>, tables: Seq<Seq<u32>>, k: int) -> bool {
    &&& 1 <= k < 1024
    &&& has_room(dir, tables, k)
    &&& forall|m: int| 1 <= m < k ==> !#[trigger] has_room(dir, tables, m)
}

/// The first directory entry from 1 on whose table has room.
pub open spec fn room_index(dir: Seq<u32>, tables: Seq<Seq<u32>>) -> int {
    choose|k: int| first_room(dir, tables, k)
}

/// `n` is the first directory entry that is not present.
pub open spec fn first_absent(dir: Seq<u32>, n: int) -> bool {
    &&& 0 <= n < 1024
    &&& !present(dir[n])
    &&& forall|m: int| 0 <= m < n ==> present(#[trigger] dir[m])
}

/// The first directory entry that is not present.
pub open spec fn absent_index(dir: Seq<u32>) -> int {
    choose|n: int| first_absent(dir, n)
}

/// Physical address of the table that `new_page_table` puts at entry `n`.
pub open spec fn table_paddr(pd_paddr: PhysAddr, n: int) -> int {
    pd_paddr + (n + 1) * 0x1000
}

/// A fresh table whose last entry maps its own frame at `pt_paddr`.
pub open spec fn fresh_table(pt_paddr: u32) -> Seq<u32> {
    Seq::new(1024, |i: int| if i == 1023 { pt_paddr | 3u32 } else { 0u32 })
}

/// Table 0 after the scan of `new_page_frame`: it takes the frame when it
/// has room, though the scan goes on.
pub open spec fn scanned_zero(dir: Seq<u32>, tables: Seq<Seq<u32>>, entry: u32) -> Seq<u32> {
    if has_room(dir, tables, 0) {
        with_frame(tables[0], entry)
    } else {
        tables[0]
    }
}

/// When `new_page_table` can place a table: some entry from 1 on is the
/// first that is not present, and the table's address fits.
pub open spec fn table_fits(dir: Seq<u32>, pd_paddr: PhysAddr) -> bool {
    exists|n: int| first_absent(dir, n) && n != 0 && table_paddr(pd_paddr, n) <= u32::MAX
}

proof fn lemma_first_absent_unique(dir: Seq<u32>, a: int, b: int)
    requires
        first_absent(dir, a),
        first_absent(dir, b),
    ensures
        a == b,
{
    if a < b {
        assert(present(dir[a]));
    }
    if b < a {
        assert(present(dir[b]));
    }
}

proof fn lemma_first_room_unique(dir: Seq<u32>, tables: Seq<Seq<u32>>, a: int, b: int)
    requires
        first_room(dir, tables, a),
        first_room(dir, tables, b),
    ensures
        a == b,
{
    if a < b {
        assert(!has_room(dir, tables, a));
    }
    if b < a {
        assert(!has_room(dir, tables, b));
    }
}

proof fn lemma_tables_view_update(ts: Seq<PageTable>, i: int, t: PageTable)
    requires
        0 <= i < ts.len(),
    ensures
        tables_view(ts.update(i, t)) == tables_view(ts).update(i, t@),
{
    assert(tables_view(ts.update(i, t)) =~= tables_view(ts).update(i, t@));
}

impl PageDirectory {
    pub open spec fn wf(&self) -> bool {
        self@.len() == 1024
    }

    fn entry_present(&self, i: usize) -> (res: bool)
        requires
            self.wf(),
            i < 1024,
        ensures
            res == present(self@[i as int]),
    {
        let e = self.entries[i];
        let v = e.value;
        let p = e.get_present();
        proof {
            lemma_bit_u32(v, 0u32);
        }
        p == 1
    }

    /// Places a fresh table at the first directory entry that is not
    /// present: its frame is the one `table_paddr` gives, the table is
    /// cleared but for its last entry, which maps the table itself, and the
    /// directory entry maps it (present and writable). Entry `n % 1023` of
    /// table 0, through which the fresh table was reached, ends at 0. Returns
    /// the entry's index.
    pub fn new_page_table(&mut self, tables: &mut Vec<PageTable>, pd_paddr: PhysAddr) -> (res: usize)
        requires
            old(self).wf(),
            tables_wf(old(tables)@),
            table_fits(old(self)@, pd_paddr),
        ensures
            first_absent(old(self)@, res as int),
            final(self).wf(),
            tables_wf(final(tables)@),
            final(self)@ == old(self)@.update(res as int, (table_paddr(pd_paddr, res as int) as u32) | 3u32),
            tables_view(final(tables)@) == tables_view(old(tables)@).update(
                res as int,
                fresh_table(table_paddr(pd_paddr, res as int) as u32),
            ).update(0, tables_view(old(tables)@)[0].update((res % 1023) as int, 0u32)),
    {
        let ghost n = choose|n: int| first_absent(old(self)@, n) && n != 0 && table_paddr(pd_paddr, n) <= u32::MAX;
        let mut i: usize = 0;
        while i < 1024
            invariant
                self == old(self),
                tables == old(tables),
                self.wf(),
                tables_wf(tables@),
                first_absent(self@, n),
                n != 0,
                table_paddr(pd_paddr, n) <= u32::MAX,
                i <= 1024,
                forall|m: int| 0 <= m < i ==> present(#[trigger] self@[m]),
            decreases 1024 - i,
        {
            if !self.entry_present(i) {
                proof {
                    assert(first_absent(self@, i as int));
                    lemma_first_absent_unique(self@, i as int, n);
                }
                let ghost t0 = tables_view(tables@);
                let ghost z0 = tables@[0]@;
                assert(tables@[0].wf() && tables@[i as int].wf());
                let pt_paddr: PhysAddr = pd_paddr + (i as u32 + 1) * 0x1000;
                tables[0].set(i % 1023, pt_paddr | 3);
                let ghost z1 = tables@[0]@;
                assert(z1 == z0.update((i % 1023) as int, pt_paddr | 3u32));
                tables[i].clear();
                tables[i].set(1023, pt_paddr | 3);
                assert(tables@[0]@ == z1);
                self.entries.set(i, PageDirectoryEntry::new(pt_paddr | 3));
                tables[0].set(i % 1023, 0);
                proof {
                    assert(z0 == t0[0]);
                    assert(tables@[0]@ == z1.update((i % 1023) as int, 0u32));
                    assert(self@ =~= old(self)@.update(i as int, pt_paddr | 3u32));
                    assert(tables@[i as int]@ =~= fresh_table(pt_paddr));
                    assert(tables@[0]@ =~= t0[0].update((i % 1023) as int, 0u32));
                    assert(tables_view(tables@) =~= t0.update(i as int, fresh_table(pt_paddr)).update(
                        0,
                        t0[0].update((i % 1023) as int, 0u32),
                    ));
                }
                return i;
            }
            i += 1;
        }
        proof {
            assert(present(self@[n]));
        }
        0
    }

    /// Maps `page_frame` (present and writable) in the first table from
    /// entry 1 on that has room and returns the page's address. Table 0 is
    /// scanned too and takes the frame when it has room, but its page is
    /// not the one returned. When no table from entry 1 on has room, a fresh
    /// table is placed with `new_page_table` and the frame goes to its
    /// first entry.
    pub fn new_page_frame(&mut self, tables: &mut Vec<PageTable>, pd_paddr: PhysAddr, page_frame: PhysAddr) -> (res:
        Result<VirtAddr, ()>)
        requires
            old(self).wf(),
            tables_wf(old(tables)@),
            (exists|k: int| first_room(old(self)@, tables_view(old(tables)@), k)) || table_fits(old(self)@, pd_paddr),
        ensures
            final(self).wf(),
            tables_wf(final(tables)@),
            ({
                let dir = old(self)@;
                let tv = tables_view(old(tables)@);
                let entry = page_frame | 3u32;
                let zero = scanned_zero(dir, tv, entry);
                if exists|k: int| first_room(dir, tv, k) {
                    let k = room_index(dir, tv);
                    &&& res == Ok::<VirtAddr, ()>(vaddr_of(k, free_slot(tv[k])) as VirtAddr)
                    &&& final(self)@ == dir
                    &&& tables_view(final(tables)@) == tv.update(k, with_frame(tv[k], entry)).update(0, zero)
                } else {
                    let n = absent_index(dir);
                    let pt = table_paddr(pd_paddr, n) as u32;
                    &&& res == Ok::<VirtAddr, ()>(vaddr_of(n, 0) as VirtAddr)
                    &&& final(self)@ == dir.update(n, pt | 3u32)
                    &&& tables_view(final(tables)@) == tv.update(n, fresh_table(pt).update(0, entry)).update(
                        0,
                        zero.update((n % 1023) as int, 0u32),
                    )
                }
            }),
    {
        let ghost dir = self@;
        let ghost tv = tables_view(tables@);
        let ghost entry = page_frame | 3u32;
        let mut i: usize = 0;
        while i < 1024
            invariant
                self == old(self),
                dir == self@,
                tv == tables_view(old(tables)@),
                entry == page_frame | 3u32,
                self.wf(),
                tables_wf(tables@),
                tables_wf(old(tables)@),
                (exists|k: int| first_room(dir, tv, k)) || table_fits(dir, pd_paddr),
                i <= 1024,
                forall|m: int| 1 <= m < i ==> !#[trigger] has_room(dir, tv, m),
                tables_view(tables@) == tv.update(0, if i > 0 { scanned_zero(dir, tv, entry) } else { tv[0] }),
            decreases 1024 - i,
        {
            if self.entry_present(i) {
                let ghost before = tables_view(tables@);
                assert(tables@[i as int].wf() && old(tables)@[i as int].wf());
                proof {
                    if i == 0 {
                        assert(before[0] == tv[0]);
                    } else {
                        assert(before[i as int] == tv[i as int]);
                    }
                    assert(before[i as int] == tables@[i as int]@);
                    lemma_free_slot(tv[i as int]);
                }
                let ghost pre_ts = tables@;
                let r = tables[i].new_frame(page_frame);
                proof {
                    assert(tables@ == pre_ts.update(i as int, tables@[i as int]));
                    lemma_tables_view_update(pre_ts, i as int, tables@[i as int]);
                }
                match r {
                    Ok(slot) => {
                        proof {
                            assert(first_free(tv[i as int], slot as int));
                            assert(!full(tv[i as int])) by {
                                assert(!present(tv[i as int][slot as int]));
                            }
                            assert(free_slot(tv[i as int]) == slot as int);
                            assert(tables@[i as int]@ == with_frame(tv[i as int], entry));
                        }
                        if i != 0 {
                            proof {
                                assert(first_room(dir, tv, i as int));
                                lemma_first_room_unique(dir, tv, i as int, room_index(dir, tv));
                                assert(tables_view(tables@) =~= tv.update(i as int, with_frame(tv[i as int], entry)).update(
                                    0,
                                    scanned_zero(dir, tv, entry),
                                ));
                            }
                            return Ok(get_vaddr(i, slot as usize));
                        }
                        proof {
                            assert(has_room(dir, tv, 0));
                            assert(tables_view(tables@) =~= tv.update(0, scanned_zero(dir, tv, entry)));
                        }
                    },
                    Err(_) => {
                        proof {
                            assert(full(tv[i as int]));
                            assert(tables_view(tables@) =~= tv.update(0, if i + 1 > 0 { scanned_zero(dir, tv, entry) } else { tv[0] }));
                        }
                    },
                }
            } else {
                proof {
                    assert(!has_room(dir, tv, i as int));
                    assert(tables_view(tables@) =~= tv.update(0, if i + 1 > 0 { scanned_zero(dir, tv, entry) } else { tv[0] }));
                }
            }
            i += 1;
        }
        proof {
            assert forall|k: int| !first_room(dir, tv, k) by {
                if first_room(dir, tv, k) {
                    assert(!has_room(dir, tv, k));
                }
            }
        }
        let ghost t1 = tables_view(tables@);
        let n = self.new_page_table(tables, pd_paddr);
        proof {
            let w = choose|w: int| first_absent(dir, w) && w != 0 && table_paddr(pd_paddr, w) <= u32::MAX;
            lemma_first_absent_unique(dir, w, n as int);
            lemma_first_absent_unique(dir, absent_index(dir), n as int);
        }
        let ghost pt = table_paddr(pd_paddr, n as int) as u32;
        let ghost t2 = tables_view(tables@);
        proof {
            assert(n != 0);
            assert(t2[n as int] == fresh_table(pt));
            assert(tables@[n as int].wf());
            assert(tables@[n as int]@ == fresh_table(pt));
            assert(first_free(fresh_table(pt), 0)) by {
                assert(!present(0u32)) by (bit_vector);
            }
            lemma_free_slot(fresh_table(pt));
        }
        let ghost pre_ts = tables@;
        let r = tables[n].new_frame(page_frame);
        proof {
            assert(tables@ == pre_ts.update(n as int, tables@[n as int]));
            lemma_tables_view_update(pre_ts, n as int, tables@[n as int]);
        }
        match r {
            Ok(slot) => {
                proof {
                    assert(first_free(fresh_table(pt), slot as int));
                    assert(slot == 0);
                    assert(tables@[n as int]@ == fresh_table(pt).update(0, entry));
                    assert(t2[0] == scanned_zero(dir, tv, entry).update((n % 1023) as int, 0u32));
                    assert(tables_view(tables@) =~= tv.update(n as int, fresh_table(pt).update(0, entry)).update(
                        0,
                        scanned_zero(dir, tv, entry).update((n % 1023) as int, 0u32),
                    ));
                }
                Ok(get_vaddr(n, 0))
            },
            Err(_) => {
                proof {
                    assert(!present(fresh_table(pt)[0]));
                }
                Err(())
            },
        }
    }

    /// Clears entry `page_frame & 0x3ff` of the table at directory entry
    /// `page_frame & 0x3ff`: in both index expressions `>>` binds before `&`,
    /// so both indices are the address's low ten bits. The directory's own
    /// entries are left as they are.
    pub fn remove_page_frame(&mut self, tables: &mut Vec<PageTable>, page_frame: VirtAddr)
        requires
            tables_wf(old(tables)@),
        ensures
            final(self)@ == old(self)@,
            tables_wf(final(tables)@),
            ({
                let k = (page_frame & 0x3ffu32) as int;
                tables_view(final(tables)@) == tables_view(old(tables)@).update(
                    k,
                    tables_view(old(tables)@)[k].update(k, 0u32),
                )
            }),
    {
        let pd_index: usize = (page_frame & 0xffc00000 >> 22) as usize;
        let i: usize = (page_frame & 0x3ff000 >> 12) as usize;
        assert(0xffc00000u32 >> 22u32 == 0x3ffu32 && 0x3ff000u32 >> 12u32 == 0x3ffu32) by (bit_vector);
        assert(page_frame & 0x3ffu32 < 1024) by (bit_vector);
        let ghost t0 = tables_view(tables@);
        tables[pd_index].set(i, 0);
        proof {
            assert(tables_view(tables@) =~= t0.update(pd_index as int, t0[pd_index as int].update(i as int, 0u32)));
        }
    }

    /// Clears the table at directory entry `index` and marks the entry
    /// writable and not present.
    pub fn remove_page_table(&mut self, tables: &mut Vec<PageTable>, index: usize)
        requires
            old(self).wf(),
            tables_wf(old(tables)@),
            index < 1024,
            present(old(self)@[index as int]),
        ensures
            final(self)@ == old(self)@.update(index as int, 2u32),
            tables_wf(final(tables)@),
            tables_view(final(tables)@) == tables_view(old(tables)@).update(
                index as int,
                Seq::new(1024, |i: int| 0u32),
            ),
    {
        let ghost t0 = tables_view(tables@);
        let _ = self.entry_present(index);
        tables[index].clear();
        self.entries.set(index, PageDirectoryEntry::new(0x00000002));
        proof {
            assert(self@ =~= old(self)@.update(index as int, 2u32));
            assert(tables_view(tables@) =~= t0.update(index as int, Seq::new(1024, |i: int| 0u32)));
        }
    }
}

} // verus!
