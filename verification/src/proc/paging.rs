//! The page directory of a new process: its heap, stack and kernel stack
//! tables, and the kernel's own table.

use vstd::prelude::*;

use crate::memory::paging::page_directory::{lemma_vaddr_split, pd_of, pde_paddr, pt_of, zero_table, PageDirectory};
use crate::memory::paging::{PAGE_PRESENT, PAGE_USER, PAGE_WRITABLE};
use crate::memory::{PhysAddr, VirtAddr};
use crate::proc::process::Process;

verus! {

/// The directory index of the user heap (at 0x800000).
pub const USER_HEAP_INDEX: usize = 2;

/// The directory index of the user stack (ending at 0xbfffffff).
pub const USER_STACK_INDEX: usize = 767;

/// The entry of the user stack's table that maps its top page.
pub const USER_STACK_ENTRY: usize = 1023;

/// The frames of a new process's directory and of its heap, stack and
/// kernel stack tables.
#[derive(Debug, Clone, Copy)]
pub struct PagingFrames {
    pub directory: PhysAddr,
    pub heap_table: PhysAddr,
    pub stack_table: PhysAddr,
    pub kstack_table: PhysAddr,
}

/// Where the kernel lives: its base, the address of a process's kernel
/// stack, and the address of the task stack.
#[derive(Debug, Clone, Copy)]
pub struct KernelLayout {
    pub kernel_base: VirtAddr,
    pub kstack_addr: VirtAddr,
    pub task_stack: VirtAddr,
}

/// The kernel's base and the kernel stack have tables of their own, apart
/// from each other, from the user heap's and stack's, and from the
/// directory's own last entry.
pub open spec fn layout_ok(l: KernelLayout) -> bool {
    let kb = pd_of(l.kernel_base);
    let ks = pd_of(l.kstack_addr);
    &&& kb != ks
    &&& kb != 2 && kb != 767 && kb != 1023
    &&& ks != 2 && ks != 767 && ks != 1023
}

/// The physical address of the kernel address `vaddr` through the kernel's
/// directory `k`: the frame its page's entry maps, and its offset in the
/// page.
pub open spec fn kernel_paddr(k: (Seq<u32>, Seq<Seq<u32>>), vaddr: VirtAddr) -> u32 {
    (k.1[pd_of(vaddr)][pt_of(vaddr)] & 0xfffff000u32) | (vaddr & 0xfffu32)
}

/// The directory that `setup_pagination` makes for `process`, child of
/// `parent`: a directory whose last entry maps itself; the user heap, user
/// stack and kernel stack tables, with the parent's flags, user and
/// present; the kernel's table at the kernel's base, user and present. The
/// heap's table maps the process's heap at its first entry, the stack's
/// table its stack at its last, the kernel stack's table the task stack
/// and the process's kernel stack at their entries; each writable, user
/// and present.
pub open spec fn paging_of(
    parent: Process,
    process: Process,
    kernel: (Seq<u32>, Seq<Seq<u32>>),
    f: PagingFrames,
    l: KernelLayout,
) -> (Seq<u32>, Seq<Seq<u32>>) {
    let kb = pd_of(l.kernel_base);
    let ks = pd_of(l.kstack_addr);
    let page = PAGE_WRITABLE | PAGE_USER | 1u32;
    let entries = Seq::new(
        1024,
        |i: int|
            if i == 1023 {
                f.directory | (PAGE_WRITABLE | PAGE_USER) | PAGE_PRESENT
            } else {
                0u32
            },
    ).update(2, f.heap_table | parent.heap.flags | PAGE_USER | PAGE_PRESENT).update(
        767,
        f.stack_table | parent.stack.flags | PAGE_USER | PAGE_PRESENT,
    ).update(kb, pde_paddr(kernel.0[kb]) | PAGE_PRESENT | PAGE_USER).update(
        ks,
        f.kstack_table | parent.kernel_stack.flags | PAGE_USER | PAGE_PRESENT,
    );
    let tables = Seq::new(1024, |i: int| zero_table()).update(
        2,
        zero_table().update(0, kernel_paddr(kernel, process.heap.offset) | page),
    ).update(767, zero_table().update(1023, kernel_paddr(kernel, process.stack.offset) | page)).update(
        kb,
        kernel.1[kb],
    ).update(
        ks,
        zero_table().update(pt_of(l.task_stack), kernel_paddr(kernel, l.task_stack) | page).update(
            pt_of(l.kstack_addr),
            kernel_paddr(kernel, process.kernel_stack.offset) | page,
        ),
    );
    (entries, tables)
}

/// The physical address of `vaddr` through `kernel_pd`.
fn paddr_of(kernel_pd: &PageDirectory, vaddr: VirtAddr) -> (res: u32)
    requires
        kernel_pd.wf(),
    ensures
        res == kernel_paddr(kernel_pd@, vaddr),
{
    proof {
        lemma_vaddr_split(vaddr);
    }
    let i = (vaddr >> 22u32) as usize;
    let j = ((vaddr & 0x3ff000u32) >> 12u32) as usize;
    (kernel_pd.get_table_entry(i, j).value & 0xfffff000u32) | (vaddr & 0xfffu32)
}

impl Process {
    /// The page directory of this process, child of `parent`, at the frames
    /// `frames`, the kernel's directory being `kernel_pd` (see `paging_of`).
    pub fn setup_pagination(
        &self,
        parent: &Process,
        kernel_pd: &PageDirectory,
        frames: PagingFrames,
        layout: KernelLayout,
    ) -> (res: PageDirectory)
        requires
            kernel_pd.wf(),
            layout_ok(layout),
        ensures
            res.wf(),
            res@ == paging_of(*parent, *self, kernel_pd@, frames, layout),
    {
        proof {
            lemma_vaddr_split(layout.kernel_base);
            lemma_vaddr_split(layout.kstack_addr);
            lemma_vaddr_split(layout.task_stack);
            kernel_pd.lemma_shape();
        }
        let kb = (layout.kernel_base >> 22u32) as usize;
        let ks = (layout.kstack_addr >> 22u32) as usize;
        let kernel_pt_paddr = kernel_pd.get_entry(kb).get_paddr();
        let mut pd = PageDirectory::new(frames.directory, PAGE_WRITABLE | PAGE_USER);
        pd.set_entry(USER_HEAP_INDEX, frames.heap_table | parent.heap.flags | PAGE_USER | PAGE_PRESENT);
        pd.set_entry(USER_STACK_INDEX, frames.stack_table | parent.stack.flags | PAGE_USER | PAGE_PRESENT);
        pd.set_entry(kb, kernel_pt_paddr | PAGE_PRESENT | PAGE_USER);
        pd.copy_table_from(kb, kernel_pd);
        pd.set_entry(ks, frames.kstack_table | parent.kernel_stack.flags | PAGE_USER | PAGE_PRESENT);
        let page = PAGE_WRITABLE | PAGE_USER | 1;
        let heap = paddr_of(kernel_pd, self.heap.offset);
        pd.set_table_entry(USER_HEAP_INDEX, 0, heap | page);
        let stack = paddr_of(kernel_pd, self.stack.offset);
        pd.set_table_entry(USER_STACK_INDEX, USER_STACK_ENTRY, stack | page);
        let ts = paddr_of(kernel_pd, layout.task_stack);
        pd.set_table_entry(ks, ((layout.task_stack & 0x3ff000u32) >> 12u32) as usize, ts | page);
        let kstack = paddr_of(kernel_pd, self.kernel_stack.offset);
        pd.set_table_entry(ks, ((layout.kstack_addr & 0x3ff000u32) >> 12u32) as usize, kstack | page);
        proof {
            let want = paging_of(*parent, *self, kernel_pd@, frames, layout);
            assert(pd@.0 =~= want.0);
            assert(pd@.1 =~= want.1);
        }
        pd
    }
}

} // verus!
