//! Memory zones: runs of pages mapped for a process or the kernel.

use vstd::prelude::*;

pub mod allocator;
pub mod paging;

use crate::memory::paging::bitmap::{claimed_after, run_free, Bitmaps, PAGE_NUMBER};
use crate::memory::paging::page_directory::{
    frames_at_outcome,
    frames_at_pre,
    frames_outcome,
    frames_pre,
    kframes_at_outcome,
    kframes_at_pre,
    kframes_outcome,
    kframes_pre,
    no_run,
    pd_of,
    removes_ok,
    after_removes,
    PageDirectory,
    KERNEL_PD_INDEX,
};
use crate::memory::paging::page_table::present;
use crate::memory::paging::PAGE_WRITABLE;

verus! {

pub type VirtAddr = u32;

pub type PhysAddr = u32;

/// Protections.
pub const WRITABLE: u32 = PAGE_WRITABLE;

pub const READABLE: u32 = 0b100;

pub const EXECUTABLE: u32 = 0b1000;

/// Mapping flags.
pub const MAP_SHARED: u32 = 0x1;

pub const MAP_PRIVATE: u32 = 0x2;

pub const MAP_32BIT: u32 = 0x4;

pub const MAP_ANON: u32 = 0x8;

pub const MAP_ANONYMOUS: u32 = 0x10;

pub const MAP_DENYWRITE: u32 = 0x20;

pub const MAP_EXECUTABLE: u32 = 0x40;

pub const MAP_FILE: u32 = 0x80;

pub const MAP_FIXED: u32 = 0x100;

pub const MAP_GROWSDOWN: u32 = 0x200;

pub const MAP_LOCKED: u32 = 0x400;

pub const MAP_NONBLOCK: u32 = 0x800;

pub const MAP_NORESERVE: u32 = 0x1000;

pub const MAP_POPULATE: u32 = 0x2000;

/// Whether physically adjacent frames can be found for `nb` pages from the
/// kernel half of the address space on, in the frames that will be free
/// then.
pub open spec fn kframes_succeed(v: (Seq<u32>, Seq<Seq<u32>>), used: Set<int>, nb: usize) -> bool {
    &&& nb > 0
    &&& !no_run(v, KERNEL_PD_INDEX * 1024, nb as int) ==> exists|p: int|
        0 <= p && p + nb <= PAGE_NUMBER && #[trigger] run_free(used, p, nb as int)
    &&& no_run(v, KERNEL_PD_INDEX * 1024, nb as int) ==> exists|p: int|
        0 <= p && p + nb <= PAGE_NUMBER && #[trigger] run_free(claimed_after(used, (nb / 1024 + 1) as nat), p, nb as int)
}

/// Whether physically adjacent frames can be found for `nb` pages at
/// `vaddr`, in the frames that will be free then.
pub open spec fn kframes_at_succeed(v: (Seq<u32>, Seq<Seq<u32>>), used: Set<int>, vaddr: VirtAddr, nb: usize) -> bool {
    &&& present(v.0[pd_of(vaddr)]) ==> exists|p: int|
        0 <= p && p + nb <= PAGE_NUMBER && #[trigger] run_free(used, p, nb as int)
    &&& !present(v.0[pd_of(vaddr)]) ==> exists|p: int|
        0 <= p && p + nb <= PAGE_NUMBER && #[trigger] run_free(claimed_after(used, (nb / 1024 + 1) as nat), p, nb as int)
}

/// Maps `size / 4096` pages at `addr`: with physically adjacent frames
/// when `kphys`, else each with the lowest free frame. `size` must be a
/// whole number of pages.
pub fn init_memory_addr(
    addr: VirtAddr,
    size: usize,
    flags: u32,
    kphys: bool,
    pd: &mut PageDirectory,
    physmap: &mut Bitmaps,
) -> (res: Result<VirtAddr, ()>)
    requires
        size % 4096 == 0,
        old(pd).wf(),
        old(physmap).wf(),
        kphys ==> kframes_at_pre(old(pd)@, old(physmap).free_count(), addr, size / 4096),
        !kphys ==> frames_at_pre(old(pd)@, old(physmap).free_count(), addr, size / 4096),
    ensures
        final(pd).wf(),
        final(physmap).wf(),
        final(physmap).counter() == final(physmap)@.len(),
        kphys ==> kframes_at_outcome(old(pd)@, old(physmap)@, addr, size / 4096, flags, final(pd)@, final(physmap)@, res),
        !kphys ==> frames_at_outcome(old(pd)@, old(physmap)@, addr, size / 4096, flags, final(pd)@, final(physmap)@, res),
{
    let nb_page: usize = size / 4096;
    if kphys {
        pd.kget_page_frames_at_addr(addr, nb_page, flags, physmap)
    } else {
        pd.get_page_frames_at_addr(addr, nb_page, flags, physmap)
    }
}

/// Maps `size / 4096` pages where the directory has room: with physically
/// adjacent frames when `kphys`, else each with the lowest free frame.
/// `size` must be a whole number of pages.
pub fn init_memory(
    size: usize,
    flags: u32,
    kphys: bool,
    pd: &mut PageDirectory,
    physmap: &mut Bitmaps,
) -> (res: Result<VirtAddr, ()>)
    requires
        size % 4096 == 0,
        old(pd).wf(),
        old(physmap).wf(),
        kphys ==> kframes_pre(old(pd)@, old(physmap).free_count(), size / 4096),
        !kphys ==> frames_pre(old(pd)@, old(physmap).free_count(), size / 4096),
    ensures
        final(pd).wf(),
        final(physmap).wf(),
        final(physmap).counter() == final(physmap)@.len(),
        kphys ==> kframes_outcome(old(pd)@, old(physmap)@, size / 4096, flags, final(pd)@, final(physmap)@, res),
        !kphys ==> frames_outcome(old(pd)@, old(physmap)@, size / 4096, flags, final(pd)@, final(physmap)@, res),
{
    let nb_page: usize = size / 4096;
    if kphys {
        pd.kget_page_frames(nb_page, flags, physmap)
    } else {
        pd.get_page_frames(nb_page, flags, physmap)
    }
}

/// What a memory zone holds.
#[derive(Clone, Copy, Debug, PartialEq, Eq)]
pub enum TypeZone {
    Unassigned,
    Stack,
    Heap,
    Anon,
    File(&'static str),
}

/// The name a zone of type `ztype` gets.
pub open spec fn zone_name(ztype: TypeZone) -> &'static str {
    match ztype {
        TypeZone::Heap => "heap",
        TypeZone::Stack => "stack",
        TypeZone::Unassigned => "unassigned",
        TypeZone::File(name) => name,
        TypeZone::Anon => "Not yet named",
    }
}

fn name_of(ztype: TypeZone) -> (res: &'static str)
    ensures
        res == zone_name(ztype),
{
    match ztype {
        TypeZone::Heap => "heap",
        TypeZone::Stack => "stack",
        TypeZone::Unassigned => "unassigned",
        TypeZone::File(name) => name,
        TypeZone::Anon => "Not yet named",
    }
}

/// A run of mapped pages.
#[derive(Debug, Clone, Copy, PartialEq, Eq)]
pub struct MemoryZone {
    pub name: &'static str,
    pub offset: VirtAddr,
    pub type_zone: TypeZone,
    pub size: usize,
    pub flags: u32,
    pub kphys: bool,
}

impl MemoryZone {
    /// An unassigned, empty zone.
    pub fn new() -> (res: Self)
        ensures
            res.name == "",
            res.offset == 0,
            res.type_zone == TypeZone::Unassigned,
            res.size == 0,
            res.flags == 0,
            res.kphys == false,
    {
        MemoryZone { name: "", offset: 0, type_zone: TypeZone::Unassigned, size: 0, flags: 0, kphys: false }
    }

    /// A zone of `size` bytes mapped at `offset`, named by its type.
    pub fn init_addr(
        offset: VirtAddr,
        ztype: TypeZone,
        size: usize,
        flags: u32,
        kphys: bool,
        pd: &mut PageDirectory,
        physmap: &mut Bitmaps,
    ) -> (res: MemoryZone)
        requires
            size % 4096 == 0,
            old(pd).wf(),
            old(physmap).wf(),
            kphys ==> kframes_at_pre(old(pd)@, old(physmap).free_count(), offset, size / 4096)
                && kframes_at_succeed(old(pd)@, old(physmap)@, offset, size / 4096),
            !kphys ==> frames_at_pre(old(pd)@, old(physmap).free_count(), offset, size / 4096),
        ensures
            final(pd).wf(),
            final(physmap).wf(),
            final(physmap).counter() == final(physmap)@.len(),
            res.name == zone_name(ztype),
            res.offset == offset,
            res.type_zone == ztype,
            res.size == size,
            res.flags == flags,
            res.kphys == kphys,
            kphys ==> kframes_at_outcome(old(pd)@, old(physmap)@, offset, size / 4096, flags, final(pd)@, final(physmap)@, Ok(offset)),
            !kphys ==> frames_at_outcome(old(pd)@, old(physmap)@, offset, size / 4096, flags, final(pd)@, final(physmap)@, Ok(offset)),
    {
        let mut mz = MemoryZone { name: "", offset, type_zone: ztype, size, flags, kphys };
        mz.name = name_of(ztype);
        let r = init_memory_addr(offset, size, flags, kphys, pd, physmap);
        match r {
            Ok(va) => {
                mz.offset = va;
            },
            Err(_) => {
                assert(false);
            },
        }
        mz
    }

    /// A zone of `size` bytes mapped where the directory has room, named by
    /// its type.
    pub fn init(
        ztype: TypeZone,
        size: usize,
        flags: u32,
        kphys: bool,
        pd: &mut PageDirectory,
        physmap: &mut Bitmaps,
    ) -> (res: MemoryZone)
        requires
            size % 4096 == 0,
            old(pd).wf(),
            old(physmap).wf(),
            kphys ==> kframes_pre(old(pd)@, old(physmap).free_count(), size / 4096)
                && kframes_succeed(old(pd)@, old(physmap)@, size / 4096),
            !kphys ==> frames_pre(old(pd)@, old(physmap).free_count(), size / 4096) && size >= 4096,
        ensures
            final(pd).wf(),
            final(physmap).wf(),
            final(physmap).counter() == final(physmap)@.len(),
            res.name == zone_name(ztype),
            res.type_zone == ztype,
            res.size == size,
            res.flags == flags,
            res.kphys == kphys,
            kphys ==> kframes_outcome(old(pd)@, old(physmap)@, size / 4096, flags, final(pd)@, final(physmap)@, Ok(res.offset)),
            !kphys ==> frames_outcome(old(pd)@, old(physmap)@, size / 4096, flags, final(pd)@, final(physmap)@, Ok(res.offset)),
    {
        let mut mz = MemoryZone { name: "", offset: 0, type_zone: ztype, size, flags, kphys };
        mz.name = name_of(ztype);
        let r = init_memory(size, flags, kphys, pd, physmap);
        match r {
            Ok(va) => {
                mz.offset = va;
            },
            Err(_) => {
                assert(false);
            },
        }
        mz
    }

    /// The number of pages of the zone: its size in pages, rounded up.
    pub open spec fn pages(&self) -> nat {
        (self.size / 4096 + if self.size % 4096 != 0 {
            1int
        } else {
            0int
        }) as nat
    }

    /// Unmaps the zone's pages from `pd` and frees their frames; an
    /// unassigned zone has none.
    pub fn drop(&self, pd: &mut PageDirectory, physmap: &mut Bitmaps)
        requires
            old(pd).wf(),
            old(physmap).wf(),
            self.type_zone != TypeZone::Unassigned && self.offset % 4096 == 0 ==> self.offset + self.pages() * 4096
                <= u32::MAX && removes_ok(old(pd)@, old(physmap)@, self.offset, self.pages()),
        ensures
            final(pd).wf(),
            final(physmap).wf(),
            self.type_zone == TypeZone::Unassigned || self.offset % 4096 != 0 ==> final(pd)@ == old(pd)@
                && final(physmap)@ == old(physmap)@,
            self.type_zone != TypeZone::Unassigned && self.offset % 4096 == 0 ==> (final(pd)@, final(physmap)@)
                == after_removes(old(pd)@, old(physmap)@, self.offset, self.pages()),
    {
        match self.type_zone {
            TypeZone::Unassigned => {},
            _ => {
                let mut npages: usize = self.size / 4096;
                if self.size % 4096 != 0 {
                    npages += 1;
                }
                pd.remove_page_frames(self.offset, npages, physmap);
            },
        }
    }
}

} // verus!
