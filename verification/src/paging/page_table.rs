//! Page tables of the first paging layout: the last entry of every table
//! maps the table itself.

use vstd::prelude::*;

use crate::memory::paging::page_table::{bit, lemma_bit_u32, present};
use crate::memory::PhysAddr;

verus! {

/// One entry of a page table.
#[derive(Copy, Clone)]
pub struct PageTableEntry {
    pub value: u32,
}

impl From<u32> for PageTableEntry {
    fn from(item: u32) -> (res: Self) {
        PageTableEntry { value: item }
    }
}

impl vstd::std_specs::convert::FromSpecImpl<u32> for PageTableEntry {
    open spec fn obeys_from_spec() -> bool {
        true
    }

    open spec fn from_spec(v: u32) -> Self {
        PageTableEntry { value: v }
    }
}

impl PageTableEntry {
    pub fn new(value: u32) -> (res: Self)
        ensures
            res.value == value,
    {
        Self { value }
    }

    /// Sets the entry to zero.
    pub fn free_entry(&mut self)
        ensures
            final(self).value == 0,
    {
        self.value = 0;
    }

    pub fn get_present(&self) -> (res: u8)
        ensures
            res == bit(self.value, 0),
    {
        let v = self.value;
        proof {
            lemma_bit_u32(v, 0u32);
        }
        ((v >> 0u32) & 1u32) as u8
    }

    pub fn get_writable(&self) -> (res: u8)
        ensures
            res == bit(self.value, 1),
    {
        let v = self.value;
        proof {
            lemma_bit_u32(v, 1u32);
        }
        ((v >> 1u32) & 1u32) as u8
    }

    pub fn get_user_supervisor(&self) -> (res: u8)
        ensures
            res == bit(self.value, 2),
    {
        let v = self.value;
        proof {
            lemma_bit_u32(v, 2u32);
        }
        ((v >> 2u32) & 1u32) as u8
    }

    pub fn get_pwt(&self) -> (res: u8)
        ensures
            res == bit(self.value, 3),
    {
        let v = self.value;
        proof {
            lemma_bit_u32(v, 3u32);
        }
        ((v >> 3u32) & 1u32) as u8
    }

    pub fn get_pcd(&self) -> (res: u8)
        ensures
            res == bit(self.value, 4),
    {
        let v = self.value;
        proof {
            lemma_bit_u32(v, 4u32);
        }
        ((v >> 4u32) & 1u32) as u8
    }

    pub fn get_accessed(&self) -> (res: u8)
        ensures
            res == bit(self.value, 5),
    {
        let v = self.value;
        proof {
            lemma_bit_u32(v, 5u32);
        }
        ((v >> 5u32) & 1u32) as u8
    }

    pub fn get_dirty(&self) -> (res: u8)
        ensures
            res == bit(self.value, 6),
    {
        let v = self.value;
        proof {
            lemma_bit_u32(v, 6u32);
        }
        ((v >> 6u32) & 1u32) as u8
    }

    pub fn get_pat(&self) -> (res: u8)
        ensures
            res == bit(self.value, 7),
    {
        let v = self.value;
        proof {
            lemma_bit_u32(v, 7u32);
        }
        ((v >> 7u32) & 1u32) as u8
    }

    pub fn get_global(&self) -> (res: u8)
        ensures
            res == bit(self.value, 8),
    {
        let v = self.value;
        proof {
            lemma_bit_u32(v, 8u32);
        }
        ((v >> 8u32) & 1u32) as u8
    }

    /// The three bits available to the system (bits 9 to 11).
    pub fn get_avl(&self) -> (res: u8)
        ensures
            res == (self.value >> 9u32) & 7u32,
    {
        let v = self.value;
        proof {
            lemma_bit_u32(v, 9u32);
        }
        ((v >> 9u32) & 7u32) as u8
    }

    /// Physical address of the mapped frame.
    pub fn get_paddr(&self) -> (res: PhysAddr)
        ensures
            res == self.value & 0xfffff000u32,
    {
        self.value & 0xfffff000u32
    }
}

/// `s` is the first entry of table `t` that is not present.
pub open spec fn first_free(t: Seq<u32>, s: int) -> bool {
    &&& 0 <= s < 1024
    &&& !present(t[s])
    &&& forall|k: int| 0 <= k < s ==> present(#[trigger] t[k])
}

/// Every entry of table `t` is present.
pub open spec fn full(t: Seq<u32>) -> bool {
    forall|k: int| 0 <= k < 1024 ==> present(#[trigger] t[k])
}

/// The first entry of `t` that is not present.
pub open spec fn free_slot(t: Seq<u32>) -> int {
    choose|s: int| first_free(t, s)
}

/// Table `t` once `entry` stands in its first entry that is not present
/// (unchanged when every entry is present).
pub open spec fn with_frame(t: Seq<u32>, entry: u32) -> Seq<u32> {
    if full(t) {
        t
    } else {
        t.update(free_slot(t), entry)
    }
}

/// The first free entry is unique, and there is one unless the table is
/// full.
pub proof fn lemma_free_slot(t: Seq<u32>)
    requires
        t.len() == 1024,
    ensures
        !full(t) ==> first_free(t, free_slot(t)),
        forall|s: int| #[trigger] first_free(t, s) ==> s == free_slot(t),
{
    if !full(t) {
        let w = choose|k: int| 0 <= k < 1024 && !present(#[trigger] t[k]);
        lemma_first_absent(t, w);
    }
    assert forall|s: int| #[trigger] first_free(t, s) implies s == free_slot(t) by {
        let f = free_slot(t);
        assert(first_free(t, f));
        if s < f {
            assert(present(t[s]));
        }
        if f < s {
            assert(present(t[f]));
        }
    }
}

proof fn lemma_first_absent(t: Seq<u32>, w: int)
    requires
        0 <= w < 1024,
        !present(t[w]),
    ensures
        exists|s: int| first_free(t, s),
    decreases w,
{
    if forall|k: int| 0 <= k < w ==> present(#[trigger] t[k]) {
        assert(first_free(t, w));
    } else {
        let k = choose|k: int| 0 <= k < w && !present(#[trigger] t[k]);
        lemma_first_absent(t, k);
    }
}

/// A page table.
pub struct PageTable {
    pub entries: Vec<PageTableEntry>,
}

impl View for PageTable {
    type V = Seq<u32>;

    open spec fn view(&self) -> Seq<u32> {
        self.entries@.map_values(|e: PageTableEntry| e.value)
    }
}

impl PageTable {
    pub open spec fn wf(&self) -> bool {
        self.entries@.len() == 1024
    }

    /// A table whose entries are all zero.
    pub fn new() -> (res: PageTable)
        ensures
            res.wf(),
            res@ == Seq::new(1024, |i: int| 0u32),
    {
        let mut entries: Vec<PageTableEntry> = Vec::new();
        let mut i: usize = 0;
        while i < 1024
            invariant
                i <= 1024,
                entries@.len() == i,
                forall|k: int| 0 <= k < i ==> entries@[k].value == 0,
            decreases 1024 - i,
        {
            entries.push(PageTableEntry::new(0));
            i += 1;
        }
        let res = PageTable { entries };
        assert(res@ =~= Seq::new(1024, |i: int| 0u32));
        res
    }

    pub(crate) fn set(&mut self, index: usize, value: u32)
        requires
            old(self).wf(),
            index < 1024,
        ensures
            final(self).wf(),
            final(self)@ == old(self)@.update(index as int, value),
    {
        self.entries[index] = PageTableEntry::new(value);
        assert(self@ =~= old(self)@.update(index as int, value));
    }

    /// Sets every entry to zero.
    pub fn clear(&mut self)
        requires
            old(self).wf(),
        ensures
            final(self).wf(),
            final(self)@ == Seq::new(1024, |i: int| 0u32),
    {
        let mut i: usize = 0;
        while i < 1024
            invariant
                self.wf(),
                i <= 1024,
                forall|k: int| 0 <= k < i ==> self@[k] == 0u32,
            decreases 1024 - i,
        {
            self.set(i, 0);
            i += 1;
        }
        assert(self@ =~= Seq::new(1024, |i: int| 0u32));
    }

    /// Sets every entry to zero but the last, which maps the table's own
    /// frame at `paddr` (present and writable).
    pub fn reset(&mut self, paddr: PhysAddr)
        requires
            old(self).wf(),
        ensures
            final(self).wf(),
            final(self)@ == Seq::new(1024, |i: int| if i == 1023 { paddr | 3u32 } else { 0u32 }),
    {
        let mut i: usize = 0;
        while i < 1023
            invariant
                self.wf(),
                i <= 1023,
                forall|k: int| 0 <= k < i ==> self@[k] == 0u32,
            decreases 1023 - i,
        {
            self.set(i, 0);
            i += 1;
        }
        self.set(1023, paddr | 3);
        assert(self@ =~= Seq::new(1024, |i: int| if i == 1023 { paddr | 3u32 } else { 0u32 }));
    }

    /// Identity-maps (present and writable) the pages of the first
    /// 1023 entries that lie at or below `pd_offset`, the directory's offset
    /// from the kernel's base, clears the others, and maps the table's own
    /// frame at `paddr` in the last entry.
    pub fn init(&mut self, paddr: usize, pd_offset: usize)
        requires
            old(self).wf(),
        ensures
            final(self).wf(),
            final(self)@ == Seq::new(
                1024,
                |i: int|
                    if i == 1023 {
                        (paddr | 3usize) as u32
                    } else if i * 0x1000 <= pd_offset {
                        (i * 0x1000 + 3) as u32
                    } else {
                        0u32
                    },
            ),
    {
        let mut i: usize = 0;
        while i < 1023
            invariant
                self.wf(),
                i <= 1023,
                forall|k: int|
                    0 <= k < i ==> self@[k] == (if k * 0x1000 <= pd_offset {
                        (k * 0x1000 + 3) as u32
                    } else {
                        0u32
                    }),
            decreases 1023 - i,
        {
            if i * 0x1000 <= pd_offset {
                let addr = i * 0x1000;
                assert(addr | 3usize == addr + 3) by (bit_vector)
                    requires
                        addr == i * 0x1000usize,
                        i < 1023usize,
                ;
                self.set(i, (addr | 3) as u32);
            } else {
                self.set(i, 0);
            }
            i += 1;
        }
        self.set(1023, (paddr | 3) as u32);
        assert(self@ =~= Seq::new(
            1024,
            |i: int|
                if i == 1023 {
                    (paddr | 3usize) as u32
                } else if i * 0x1000 <= pd_offset {
                    (i * 0x1000 + 3) as u32
                } else {
                    0u32
                },
        ));
    }

    /// Maps `page_frame` (present and writable) at the first entry that is
    /// not present and returns its index; fails when every entry is present.
    pub fn new_frame(&mut self, page_frame: PhysAddr) -> (res: Result<u16, ()>)
        requires
            old(self).wf(),
        ensures
            final(self).wf(),
            match res {
                Ok(i) => {
                    &&& i < 1024
                    &&& !present(old(self)@[i as int])
                    &&& forall|k: int| 0 <= k < i ==> present(#[trigger] old(self)@[k])
                    &&& final(self)@ == old(self)@.update(i as int, page_frame | 3u32)
                },
                Err(_) => {
                    &&& forall|k: int| 0 <= k < 1024 ==> present(#[trigger] old(self)@[k])
                    &&& final(self)@ == old(self)@
                },
            },
    {
        let mut i: usize = 0;
        while i < 1024
            invariant
                self.wf(),
                self@ == old(self)@,
                i <= 1024,
                forall|k: int| 0 <= k < i ==> present(#[trigger] self@[k]),
            decreases 1024 - i,
        {
            let e = self.entries[i];
            let p = e.get_present();
            proof {
                let v = e.value;
                assert(((v >> 0u32) & 1u32 == 1u32) == (v & 1u32 == 1u32)) by {
                lemma_bit_u32(v, 0u32);
            }
                assert(self@[i as int] == v);
            }
            if p != 1 {
                self.set(i, page_frame | 3);
                return Ok(i as u16);
            }
            i += 1;
        }
        Err(())
    }
}

} // verus!
