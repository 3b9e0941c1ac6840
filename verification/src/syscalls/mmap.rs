//! Mapping memory for a process.

use vstd::prelude::*;

use crate::memory::paging::bitmap::Bitmaps;
use crate::memory::paging::page_directory::{
    after_removes, get_vaddr, lemma_vaddr_bits, pd_of, pt_of, removes_ok, vaddr_of, PageDirectory,
};
use crate::memory::paging::page_table::bit;
use crate::memory::{MemoryZone, PhysAddr, TypeZone, VirtAddr};
use crate::proc::process::{zone_can_be_made, zone_made, Process};

verus! {

/// The arguments of `mmap` as user space passes them.
#[allow(non_camel_case_types)]
#[derive(Debug, Clone, Copy)]
pub struct mmap_arg {
    pub addr: usize,
    pub length: usize,
    pub prot: u32,
    pub flags: u32,
    pub fd: i32,
    pub offset: usize,
}

/// Maps an anonymous zone of `size` bytes with `flags` for `process` and
/// adds it to its memory map. The hint, protections, file and offset are
/// not used yet.
pub fn sys_mmap(
    hint: VirtAddr,
    size: usize,
    prot: u32,
    flags: u32,
    fd: i32,
    offset: usize,
    process: &mut Process,
    pd: &mut PageDirectory,
    physmap: &mut Bitmaps,
) -> (res: Result<MemoryZone, ()>)
    requires
        old(pd).wf(),
        old(physmap).wf(),
        zone_can_be_made(old(pd)@, old(physmap)@, old(physmap).free_count(), size, false),
    ensures
        final(pd).wf(),
        final(physmap).wf(),
        res matches Ok(mz) && {
            &&& zone_made(old(pd)@, old(physmap)@, TypeZone::Anon, size, flags, false, final(pd)@, final(physmap)@, mz)
            &&& final(process).mem_map@ == old(process).mem_map@.push(mz)
        },
        final(process).pid == old(process).pid,
{
    let mz = MemoryZone::init(TypeZone::Anon, size, flags, false, pd, physmap);
    process.add_memory_zone(mz);
    Ok(mz)
}

/// Entry `k` of table `j` of the directory `v` maps frame `paddr`, and
/// directory entry `j` is present.
pub open spec fn maps_frame(v: (Seq<u32>, Seq<Seq<u32>>), j: int, k: int, paddr: PhysAddr) -> bool {
    &&& bit(v.0[j], 0) == 1
    &&& v.1[j][k] & 0xfffff000u32 == paddr
}

/// No entry before entry `k` of table `j` (tables and entries in order)
/// maps frame `paddr` in `v`.
pub open spec fn none_before(v: (Seq<u32>, Seq<Seq<u32>>), j: int, k: int, paddr: PhysAddr) -> bool {
    forall|a: int, b: int|
        0 <= a < 1024 && 0 <= b < 1024 && (a < j || (a == j && b < k)) ==> !#[trigger] maps_frame(v, a, b, paddr)
}

/// The kernel address of the user address `addr` of a process owned by
/// `owner` whose directory is `user`, `kernel` being the kernel's
/// directory: `addr` itself for a kernel process (owner 0); else the first
/// kernel page (in order of tables and entries) that maps the frame
/// `addr`'s page is in, or 0 when its table is not present or no kernel
/// page maps that frame.
pub open spec fn translation(owner: i32, user: (Seq<u32>, Seq<Seq<u32>>), kernel: (Seq<u32>, Seq<Seq<u32>>), addr: VirtAddr) -> VirtAddr {
    if owner == 0 {
        addr
    } else if bit(user.0[pd_of(addr)], 0) != 1 {
        0
    } else {
        let frame = user.1[pd_of(addr)][pt_of(addr)] & 0xfffff000u32;
        if exists|j: int, k: int| 0 <= j < 1024 && 0 <= k < 1024 && maps_frame(kernel, j, k, frame) && none_before(kernel, j, k, frame) {
            let (j, k) = choose|j: int, k: int|
                0 <= j < 1024 && 0 <= k < 1024 && maps_frame(kernel, j, k, frame) && none_before(kernel, j, k, frame);
            vaddr_of(j, k) as VirtAddr
        } else {
            0
        }
    }
}

/// The kernel address of the user address `addr` of `process`, whose
/// directory is `user_pd`, through the kernel's directory `kernel_pd`.
pub fn translate_vaddr(process: &Process, user_pd: &PageDirectory, kernel_pd: &PageDirectory, addr: VirtAddr) -> (res: VirtAddr)
    requires
        user_pd.wf(),
        kernel_pd.wf(),
    ensures
        res == translation(process.owner, user_pd@, kernel_pd@, addr),
{
    if process.owner == 0 {
        return addr;
    }
    proof {
        lemma_vaddr_bits(addr);
    }
    let pd_index = (addr >> 22u32) as usize;
    let pt_index = ((addr & 0x3ff000u32) >> 12u32) as usize;
    if user_pd.get_entry(pd_index).get_present() != 1 {
        return 0;
    }
    let frame = user_pd.get_table_entry(pd_index, pt_index).get_paddr();
    let mut j: usize = 0;
    while j < 1024
        invariant
            kernel_pd.wf(),
            j <= 1024,
            process.owner != 0,
            bit(user_pd@.0[pd_of(addr)], 0) == 1,
            frame == user_pd@.1[pd_of(addr)][pt_of(addr)] & 0xfffff000u32,
            none_before(kernel_pd@, j as int, 0, frame),
        decreases 1024 - j,
    {
        if kernel_pd.get_entry(j).get_present() == 1 {
            let mut k: usize = 0;
            while k < 1024
                invariant
                    kernel_pd.wf(),
                    j < 1024,
                    k <= 1024,
                    bit(kernel_pd@.0[j as int], 0) == 1,
                    process.owner != 0,
                    bit(user_pd@.0[pd_of(addr)], 0) == 1,
                    frame == user_pd@.1[pd_of(addr)][pt_of(addr)] & 0xfffff000u32,
                    none_before(kernel_pd@, j as int, k as int, frame),
                decreases 1024 - k,
            {
                if kernel_pd.get_table_entry(j, k).get_paddr() == frame {
                    proof {
                        assert(maps_frame(kernel_pd@, j as int, k as int, frame));
                        let (a, b) = choose|a: int, b: int|
                            0 <= a < 1024 && 0 <= b < 1024 && maps_frame(kernel_pd@, a, b, frame) && none_before(
                                kernel_pd@,
                                a,
                                b,
                                frame,
                            );
                        assert(a == j && b == k) by {
                            if a < j || (a == j && b < k) {
                                assert(!maps_frame(kernel_pd@, a, b, frame));
                            }
                            if j < a || (j == a && k < b) {
                                assert(!maps_frame(kernel_pd@, j as int, k as int, frame));
                            }
                        }
                    }
                    return get_vaddr(j, k);
                }
                k += 1;
            }
            assert(none_before(kernel_pd@, (j + 1) as int, 0, frame));
        } else {
            assert forall|a: int, b: int|
                0 <= a < 1024 && 0 <= b < 1024 && (a < j + 1 || (a == j + 1 && b < 0)) implies !#[trigger] maps_frame(
                kernel_pd@,
                a,
                b,
                frame,
            ) by {
                if a == j {
                    assert(bit(kernel_pd@.0[j as int], 0) != 1);
                }
            }
        }
        j += 1;
    }
    proof {
        if exists|a: int, b: int| 0 <= a < 1024 && 0 <= b < 1024 && maps_frame(kernel_pd@, a, b, frame) && none_before(kernel_pd@, a, b, frame) {
            let (a, b) = choose|a: int, b: int|
                0 <= a < 1024 && 0 <= b < 1024 && maps_frame(kernel_pd@, a, b, frame) && none_before(kernel_pd@, a, b, frame);
            assert(!maps_frame(kernel_pd@, a, b, frame));
        }
    }
    0
}

/// Zone `z` is the one `munmap` looks for at address `t`: it starts at or
/// above `t` (taken as a 32-bit address) and `t` is below its end.
pub open spec fn unmap_match(z: MemoryZone, t: usize) -> bool {
    &&& z.offset >= (t as u32)
    &&& t < z.offset + z.size
}

/// `i` is the first zone of `zones` that `munmap` finds at `t`.
pub open spec fn first_match(zones: Seq<MemoryZone>, t: usize, i: int) -> bool {
    &&& 0 <= i < zones.len()
    &&& unmap_match(zones[i], t)
    &&& forall|j: int| 0 <= j < i ==> !unmap_match(#[trigger] zones[j], t)
}

/// The address `munmap` looks for: the kernel address of `addr`'s page
/// plus `addr`'s offset in it.
pub open spec fn unmap_target(owner: i32, user: (Seq<u32>, Seq<Seq<u32>>), kernel: (Seq<u32>, Seq<Seq<u32>>), addr: VirtAddr) -> int {
    translation(owner, user, kernel, addr) + (addr & 0xfffu32)
}

/// Unmaps the zone of the running process `process` found at user address
/// `addr`: the first zone of its memory map that starts at or above the
/// kernel address of `addr` and that address is below the end of. The
/// zone leaves the memory map and its pages are freed from the kernel's
/// directory. Gives 0. The zone must be at most `length` bytes rounded
/// up to the next page (shrinking a zone is not supported).
pub fn sys_munmap(
    process: &mut Process,
    user_pd: &PageDirectory,
    kernel_pd: &mut PageDirectory,
    physmap: &mut Bitmaps,
    addr: VirtAddr,
    length: usize,
) -> (res: i32)
    requires
        user_pd.wf(),
        old(kernel_pd).wf(),
        old(physmap).wf(),
        length + 4096 - length % 4096 <= usize::MAX,
        unmap_target(old(process).owner, user_pd@, old(kernel_pd)@, addr) <= usize::MAX,
        ({
            let t = unmap_target(old(process).owner, user_pd@, old(kernel_pd)@, addr) as usize;
            let zones = old(process).mem_map@;
            &&& forall|j: int|
                0 <= j < zones.len() && #[trigger] zones[j].offset >= (t as u32) && (forall|k: int|
                    0 <= k < j ==> !unmap_match(zones[k], t)) ==> zones[j].offset + zones[j].size <= usize::MAX
            &&& exists|i: int| first_match(zones, t, i)
            &&& forall|i: int|
                first_match(zones, t, i) ==> {
                    &&& length + 4096 - length % 4096 >= zones[i].size
                    &&& zones[i].type_zone != TypeZone::Unassigned && zones[i].offset % 4096 == 0 ==> zones[i].offset
                        + zones[i].pages() * 4096 <= u32::MAX && removes_ok(
                        old(kernel_pd)@,
                        old(physmap)@,
                        zones[i].offset,
                        zones[i].pages(),
                    )
                }
        }),
    ensures
        res == 0,
        final(kernel_pd).wf(),
        final(physmap).wf(),
        final(process).pid == old(process).pid,
        final(process).owner == old(process).owner,
        final(process).signals@ == old(process).signals@,
        ({
            let t = unmap_target(old(process).owner, user_pd@, old(kernel_pd)@, addr) as usize;
            let zones = old(process).mem_map@;
            exists|i: int|
                {
                    &&& #[trigger] first_match(zones, t, i)
                    &&& final(process).mem_map@ == zones.remove(i)
                    &&& zones[i].type_zone == TypeZone::Unassigned || zones[i].offset % 4096 != 0 ==> final(kernel_pd)@
                        == old(kernel_pd)@ && final(physmap)@ == old(physmap)@
                    &&& zones[i].type_zone != TypeZone::Unassigned && zones[i].offset % 4096 == 0 ==> (
                        final(kernel_pd)@,
                        final(physmap)@,
                    ) == after_removes(old(kernel_pd)@, old(physmap)@, zones[i].offset, zones[i].pages())
                }
        }),
{
    let size = length + (4096 - length % 4096);
    let translated = translate_vaddr(process, user_pd, kernel_pd, addr);
    let t: usize = translated as usize + (addr & 0xfffu32) as usize;
    let t32: VirtAddr = #[verifier::truncate] (t as VirtAddr);
    let ghost zones = process.mem_map@;
    let mut index: usize = 0;
    while index < process.mem_map.len()
        invariant_except_break
            process.mem_map@ == zones,
            t32 == t as u32,
            index <= zones.len(),
            forall|k: int| 0 <= k < index ==> !unmap_match(#[trigger] zones[k], t),
            forall|j: int|
                0 <= j < zones.len() && #[trigger] zones[j].offset >= (t as u32) && (forall|k: int|
                    0 <= k < j ==> !unmap_match(zones[k], t)) ==> zones[j].offset + zones[j].size <= usize::MAX,
        ensures
            process.mem_map@ == zones,
            index < zones.len() ==> first_match(zones, t, index as int),
            index >= zones.len() ==> forall|k: int| 0 <= k < zones.len() ==> !unmap_match(#[trigger] zones[k], t),
        decreases zones.len() - index,
    {
        let z = process.mem_map[index];
        assert(z == zones[index as int]);
        if z.offset >= t32 && t < z.offset as usize + z.size {
            break;
        }
        index += 1;
    }
    proof {
        if index >= zones.len() {
            let i = choose|i: int| first_match(zones, t, i);
            assert(!unmap_match(zones[i], t));
        }
    }
    let zone = process.mem_map.remove(index);
    assert(size >= zone.size);
    zone.drop(kernel_pd, physmap);
    0
}

} // verus!
