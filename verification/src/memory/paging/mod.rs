pub mod bitmap;
pub mod page_directory;
pub mod page_table;

use vstd::prelude::*;

use crate::memory::paging::bitmap::{first_free, frame_addr, with_run, Bitmaps, PAGE_NUMBER};
use crate::memory::paging::page_directory::{zero_table, PageDirectory, KERNEL_PD_INDEX};
use crate::memory::paging::page_table::init_entry;
use crate::memory::PhysAddr;

verus! {

pub const PAGE_GLOBAL: u32 = 0b100000000;

pub const PAGE_USER: u32 = 0b100;

pub const PAGE_WRITABLE: u32 = 0b10;

pub const PAGE_PRESENT: u32 = 0b1;

/// The frames used once paging is set up from `used`: the first MiB
/// (real mode), the `code_pages` frames from 1 MiB on (the kernel up to
/// its page directory and the tables after it), and the lowest frame left,
/// which holds the kernel's page table.
pub open spec fn boot_frames(used: Set<int>, code_pages: int) -> Set<int> {
    let claimed = with_run(with_run(used, 0, 256), 256, code_pages);
    claimed.insert(first_free(claimed))
}

/// Sets up paging: claims the first MiB used by the BIOS in real mode, the
/// frames from 1 MiB up to the page directory (at physical address
/// `pd_paddr`) and the 1024 after it, and a frame for the kernel's page
/// table. The directory `pd` then maps the kernel's half with that table,
/// filled as the kernel's own table (`rodata` and `pd_vaddr` being the
/// addresses of the read-only data and of the directory), maps itself in
/// its last entry, and no longer maps the low identity pages. Gives the
/// address of the kernel's page table.
pub fn init_paging(
    pd: &mut PageDirectory,
    physmap: &mut Bitmaps,
    pd_paddr: PhysAddr,
    rodata: usize,
    pd_vaddr: usize,
) -> (res: PhysAddr)
    requires
        old(pd).wf(),
        old(physmap).wf(),
        0x100000 + ((pd_paddr / 0x1000) as int + 1024) * 4096 <= u32::MAX + 1,
        crate::memory::paging::bitmap::run_free(old(physmap)@, 0, 256),
        crate::memory::paging::bitmap::run_free(old(physmap)@, 256, (pd_paddr / 0x1000) as int + 1024),
        with_run(with_run(old(physmap)@, 0, 256), 256, (pd_paddr / 0x1000) as int + 1024).len() < PAGE_NUMBER,
    ensures
        final(pd).wf(),
        final(physmap).wf(),
        final(physmap)@ == boot_frames(old(physmap)@, (pd_paddr / 0x1000) as int + 1024),
        res == frame_addr(first_free(with_run(with_run(old(physmap)@, 0, 256), 256, (pd_paddr / 0x1000) as int + 1024))),
        final(pd)@.0 == old(pd)@.0.update(KERNEL_PD_INDEX as int, res | PAGE_WRITABLE | PAGE_PRESENT).update(
            1023,
            pd_paddr | PAGE_WRITABLE | PAGE_PRESENT,
        ).update(0, 0u32),
        final(pd)@.1 == old(pd)@.1.update(
            KERNEL_PD_INDEX as int,
            Seq::new(1024, |k: int| init_entry(k, rodata, pd_vaddr)),
        ).update(0, zero_table()),
{
    let code_pages: usize = (pd_paddr / 0x1000) as usize + 1024;
    match physmap.claim_range(0x0, (1024 * 1024) / 0x1000) {
        Ok(_) => {},
        Err(_) => {
            assert(false);
        },
    }
    match physmap.claim_range(0x100000, code_pages) {
        Ok(_) => {},
        Err(_) => {
            assert(false);
        },
    }
    proof {
        physmap.lemma_wf_facts();
    }
    let kernel_pt_paddr: PhysAddr = match physmap.get_page() {
        Ok(a) => a,
        Err(_) => {
            assert(false);
            0
        },
    };
    pd.init_table(KERNEL_PD_INDEX, rodata, pd_vaddr);
    pd.set_entry(KERNEL_PD_INDEX, kernel_pt_paddr | PAGE_WRITABLE | PAGE_PRESENT);
    pd.set_entry(1023, pd_paddr | PAGE_WRITABLE | PAGE_PRESENT);
    pd.clear_table(0);
    pd.set_entry(0, 0);
    kernel_pt_paddr
}

} // verus!
