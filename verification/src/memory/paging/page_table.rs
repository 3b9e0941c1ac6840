//! A page table: 1024 entries, each mapping one 4 KiB virtual page.

use vstd::prelude::*;

use crate::memory::paging::PAGE_WRITABLE;
use crate::memory::PhysAddr;

verus! {

/// Number of entries of a page table or of a page directory.
pub const ENTRY_NUMBER: usize = 1024;

/// The present bit of an entry is set.
pub open spec fn present(v: u32) -> bool {
    v & 1u32 == 1u32
}

/// Value of an entry that maps the frame at `paddr` with `flags`.
pub open spec fn frame_entry(paddr: PhysAddr, flags: u32) -> u32 {
    paddr | flags | 1u32
}

/// An entry that maps a frame reads as present, whatever the flags.
pub proof fn lemma_frame_entry_present(paddr: PhysAddr, flags: u32)
    ensures
        present(frame_entry(paddr, flags)),
{
    assert((paddr | flags | 1u32) & 1u32 == 1u32) by (bit_vector);
}

/// Bit `k` of `v`, as 0 or 1.
pub open spec fn bit(v: u32, k: u32) -> u32 {
    (v >> k) & 1u32
}

/// Facts about bit `k` of `v` and about the fields of entries.
pub proof fn lemma_bit_u32(v: u32, k: u32)
    by (bit_vector)
    requires
        k < 32,
    ensures
        (v >> k) & 1u32 <= 1u32,
        (v >> k) & 7u32 < 8u32,
        (v >> 0u32) & 1u32 == v & 1u32,
        v & 1u32 <= 1u32,
        v == 0u32 ==> v & 1u32 == 0u32,
        ((v & 0b111100000000u32) >> 8u32) | ((v & 0b01000000u32) >> 2u32) < 256u32,
{
}

/// One entry of a page table.
#[derive(Copy, Clone)]
pub struct PageTableEntry {
    pub value: u32,
}

impl From<u32> for PageTableEntry {
    fn from(item: u32) -> (res: Self) {
        PageTableEntry { value: item }
    }
}

impl vstd::std_specs::convert::FromSpecImpl<u32> for PageTableEntry {
    open spec fn obeys_from_spec() -> bool {
        true
    }

    open spec fn from_spec(v: u32) -> Self {
        PageTableEntry { value: v }
    }
}

impl PageTableEntry {
    pub fn get_present(&self) -> (res: u8)
        ensures
            res == bit(self.value, 0),
    {
        let v = self.value;
        proof {
            lemma_bit_u32(v, 0u32);
        }
        ((v >> 0u32) & 1u32) as u8
    }

    pub fn get_writable(&self) -> (res: u8)
        ensures
            res == bit(self.value, 1),
    {
        let v = self.value;
        proof {
            lemma_bit_u32(v, 1u32);
        }
        ((v >> 1u32) & 1u32) as u8
    }

    pub fn get_user_supervisor(&self) -> (res: u8)
        ensures
            res == bit(self.value, 2),
    {
        let v = self.value;
        proof {
            lemma_bit_u32(v, 2u32);
        }
        ((v >> 2u32) & 1u32) as u8
    }

    pub fn get_pwt(&self) -> (res: u8)
        ensures
            res == bit(self.value, 3),
    {
        let v = self.value;
        proof {
            lemma_bit_u32(v, 3u32);
        }
        ((v >> 3u32) & 1u32) as u8
    }

    pub fn get_pcd(&self) -> (res: u8)
        ensures
            res == bit(self.value, 4),
    {
        let v = self.value;
        proof {
            lemma_bit_u32(v, 4u32);
        }
        ((v >> 4u32) & 1u32) as u8
    }

    pub fn get_accessed(&self) -> (res: u8)
        ensures
            res == bit(self.value, 5),
    {
        let v = self.value;
        proof {
            lemma_bit_u32(v, 5u32);
        }
        ((v >> 5u32) & 1u32) as u8
    }

    pub fn get_dirty(&self) -> (res: u8)
        ensures
            res == bit(self.value, 6),
    {
        let v = self.value;
        proof {
            lemma_bit_u32(v, 6u32);
        }
        ((v >> 6u32) & 1u32) as u8
    }

    pub fn get_pat(&self) -> (res: u8)
        ensures
            res == bit(self.value, 7),
    {
        let v = self.value;
        proof {
            lemma_bit_u32(v, 7u32);
        }
        ((v >> 7u32) & 1u32) as u8
    }

    pub fn get_global(&self) -> (res: u8)
        ensures
            res == bit(self.value, 8),
    {
        let v = self.value;
        proof {
            lemma_bit_u32(v, 8u32);
        }
        ((v >> 8u32) & 1u32) as u8
    }

    /// The three bits available to the system (bits 9 to 11).
    pub fn get_avl(&self) -> (res: u8)
        ensures
            res == (self.value >> 9u32) & 7u32,
    {
        let v = self.value;
        proof {
            lemma_bit_u32(v, 9u32);
        }
        ((v >> 9u32) & 7u32) as u8
    }

    /// Physical address of the mapped frame.
    pub fn get_paddr(&self) -> (res: PhysAddr)
        ensures
            res == self.value & 0xfffff000u32,
    {
        self.value & 0xfffff000u32
    }
}

/// A page table.
pub struct PageTable {
    pub entries: Vec<PageTableEntry>,
}

impl View for PageTable {
    type V = Seq<u32>;

    open spec fn view(&self) -> Seq<u32> {
        self.entries@.map_values(|e: PageTableEntry| e.value)
    }
}

impl PageTable {
    pub open spec fn wf(&self) -> bool {
        self.entries@.len() == ENTRY_NUMBER
    }

    /// A table whose entries are all zero.
    pub fn new() -> (res: PageTable)
        ensures
            res.wf(),
            res@ == Seq::new(1024, |i: int| 0u32),
    {
        let mut entries: Vec<PageTableEntry> = Vec::new();
        let mut i: usize = 0;
        while i < ENTRY_NUMBER
            invariant
                i <= ENTRY_NUMBER,
                entries@.len() == i,
                forall|k: int| 0 <= k < i ==> entries@[k].value == 0,
            decreases ENTRY_NUMBER - i,
        {
            entries.push(PageTableEntry { value: 0 });
            i += 1;
        }
        let res = PageTable { entries };
        assert(res@ =~= Seq::new(1024, |i: int| 0u32));
        res
    }

    /// Identity-maps the low memory of the kernel: the first page, the pages
    /// from the read-only data up to the page directory and the VGA buffer
    /// are writable, the pages below the read-only data are read-only, every
    /// other entry is zero. `rodata` and `pd_vaddr` are the addresses of the
    /// read-only data section and of the page directory.
    pub fn init(&mut self, rodata: usize, pd_vaddr: usize)
        requires
            old(self).wf(),
        ensures
            final(self).wf(),
            forall|i: int|
                0 <= i < 1024 ==> #[trigger] final(self)@[i] == init_entry(i, rodata, pd_vaddr),
    {
        let mut i: usize = 0;
        let lo: usize = (rodata & 0x3ff000usize) >> 12usize;
        let hi: usize = (pd_vaddr & 0x3ff000usize) >> 12usize;
        proof {
            assert(((rodata & 0x3ff000usize) >> 12usize) < 1024usize && ((pd_vaddr & 0x3ff000usize) >> 12usize)
                < 1024usize) by (bit_vector);
        }
        while i < ENTRY_NUMBER
            invariant
                self.wf(),
                i <= ENTRY_NUMBER,
                lo == (rodata & 0x3ff000usize) >> 12usize,
                hi == (pd_vaddr & 0x3ff000usize) >> 12usize,
                forall|k: int| 0 <= k < i ==> #[trigger] self@[k] == init_entry(k, rodata, pd_vaddr),
            decreases ENTRY_NUMBER - i,
        {
            let addr: u32 = (i * 0x1000) as u32;
            if i == 0 || (i >= lo && i <= hi) || i == 0xb8 {
                self.set_entry(i, addr | PAGE_WRITABLE | 1);
            } else if i < lo {
                self.set_entry(i, addr | 1);
            } else {
                self.set_entry(i, 0);
            }
            i += 1;
        }
    }

    pub fn set_entry(&mut self, index: usize, value: u32)
        requires
            old(self).wf(),
            index < ENTRY_NUMBER,
        ensures
            final(self).wf(),
            final(self)@ == old(self)@.update(index as int, value),
    {
        self.entries[index] = PageTableEntry { value };
        assert(self@ =~= old(self)@.update(index as int, value));
    }

    /// Sets every entry to zero.
    pub fn clear(&mut self)
        requires
            old(self).wf(),
        ensures
            final(self).wf(),
            final(self)@ == Seq::new(1024, |i: int| 0u32),
    {
        let mut i: usize = 0;
        while i < ENTRY_NUMBER
            invariant
                self.wf(),
                i <= ENTRY_NUMBER,
                forall|k: int| 0 <= k < i ==> self@[k] == 0u32,
            decreases ENTRY_NUMBER - i,
        {
            self.set_entry(i, 0);
            i += 1;
        }
        assert(self@ =~= Seq::new(1024, |i: int| 0u32));
    }

    /// Maps the frame at `paddr` with `flags` at entry `index`.
    pub fn new_index_frame(&mut self, index: usize, paddr: PhysAddr, flags: u32)
        requires
            old(self).wf(),
            index < ENTRY_NUMBER,
        ensures
            final(self).wf(),
            final(self)@ == old(self)@.update(index as int, frame_entry(paddr, flags)),
    {
        self.set_entry(index, paddr | flags | 1u32);
    }

    /// Maps the frame at `paddr` with `flags` at the first entry that is not
    /// present, and returns its index; fails when every entry is present.
    pub fn new_frame(&mut self, paddr: PhysAddr, flags: u32) -> (res: Result<u16, ()>)
        requires
            old(self).wf(),
        ensures
            final(self).wf(),
            match res {
                Ok(i) => {
                    &&& i < 1024
                    &&& !present(old(self)@[i as int])
                    &&& forall|k: int| 0 <= k < i ==> present(#[trigger] old(self)@[k])
                    &&& final(self)@ == old(self)@.update(i as int, frame_entry(paddr, flags))
                },
                Err(_) => {
                    &&& forall|k: int| 0 <= k < 1024 ==> present(#[trigger] old(self)@[k])
                    &&& final(self)@ == old(self)@
                },
            },
    {
        let mut i: usize = 0;
        while i < ENTRY_NUMBER
            invariant
                self.wf(),
                self@ == old(self)@,
                i <= ENTRY_NUMBER,
                forall|k: int| 0 <= k < i ==> present(#[trigger] self@[k]),
            decreases ENTRY_NUMBER - i,
        {
            let e = self.entries[i];
            let p = e.get_present();
            proof {
                let v = e.value;
                assert(((v >> 0u32) & 1u32 == 1u32) == (v & 1u32 == 1u32)) by {
                lemma_bit_u32(v, 0u32);
            }
                assert(self@[i as int] == v);
            }
            if p != 1 {
                self.new_index_frame(i, paddr, flags);
                return Ok(i as u16);
            }
            i += 1;
        }
        Err(())
    }
}

/// Entry `i` of a table filled by `init`.
pub open spec fn init_entry(i: int, rodata: usize, pd_vaddr: usize) -> u32 {
    let lo = (rodata & 0x3ff000usize) >> 12usize;
    let hi = (pd_vaddr & 0x3ff000usize) >> 12usize;
    let addr = (i * 0x1000) as u32;
    if i == 0 || (lo <= i <= hi) || i == 0xb8 {
        addr | PAGE_WRITABLE | 1u32
    } else if i < lo {
        addr | 1u32
    } else {
        0u32
    }
}

} // verus!
