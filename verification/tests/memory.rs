use kfs::memory::paging::bitmap::Bitmaps;
use kfs::memory::paging::init_paging;
use kfs::memory::paging::page_directory::PageDirectory;
use kfs::memory::paging::page_table::{PageTable, PageTableEntry};
use kfs::paging::page_directory::{PageDirectory as LegacyDirectory, PageDirectoryEntry};
use kfs::paging::page_table::PageTable as LegacyTable;
use kfs::memory::allocator::tracker::{leaks, Tracker};
use kfs::proc::paging::{KernelLayout, PagingFrames};
use kfs::memory::{init_memory, init_memory_addr, MemoryZone, TypeZone, WRITABLE};
use kfs::proc::process::Process;
use kfs::syscalls::mmap::{sys_mmap, sys_munmap, translate_vaddr};

#[test]
fn bitmap_claims_and_frees() {
    let mut physmap = Bitmaps::new();
    assert_eq!(physmap.used, 0);
    assert_eq!(physmap.get_page(), Ok(0));
    assert_eq!(physmap.get_page(), Ok(0x1000));
    assert_eq!(physmap.used, 2);
    assert_eq!(physmap.claim(0x5000), Ok(0x5000));
    assert_eq!(physmap.claim(0x5000), Err(0));
    assert_eq!(physmap.claim(0x12345), Ok(0x12000));
    assert_eq!(physmap.claim(0x12345), Err(2));
    assert_eq!(physmap.used, 4);
    physmap.free_page(0x5000);
    assert_eq!(physmap.used, 3);
    physmap.free_page(0x5000);
    assert_eq!(physmap.used, 3);
    assert_eq!(physmap.get_page(), Ok(0x2000));
}

#[test]
fn bitmap_get_page_after_free_gives_same_frame() {
    let mut physmap = Bitmaps::new();
    let a = physmap.get_page().unwrap();
    let b = physmap.get_page().unwrap();
    physmap.free_page(a);
    assert_eq!(physmap.get_page(), Ok(a));
    assert_ne!(a, b);
}

#[test]
fn bitmap_first_fit_runs() {
    let mut physmap = Bitmaps::new();
    assert_eq!(physmap.claim(0x1000), Ok(0x1000));
    assert_eq!(physmap.claim(0x3000), Ok(0x3000));
    assert_eq!(physmap.get_pages(2), Ok(0x4000));
    assert_eq!(physmap.get_pages(1), Ok(0x0));
    assert_eq!(physmap.used, 5);
    assert_eq!(physmap.claim_range(0x10000, 4), Ok(0x10000));
    assert_eq!(physmap.used, 9);
    assert_eq!(physmap.is_used_page(0x12), true);
    assert_eq!(physmap.is_used_page(0x14), false);
}

#[test]
fn page_table_entries() {
    let e = PageTableEntry { value: 0x1234_5067 };
    assert_eq!(e.get_present(), 1);
    assert_eq!(e.get_writable(), 1);
    assert_eq!(e.get_user_supervisor(), 1);
    assert_eq!(e.get_pwt(), 0);
    assert_eq!(e.get_pcd(), 0);
    assert_eq!(e.get_accessed(), 1);
    assert_eq!(e.get_dirty(), 1);
    assert_eq!(e.get_paddr(), 0x1234_5000);
    let mut t = PageTable::new();
    assert_eq!(t.new_frame(0x8000, 2), Ok(0));
    assert_eq!(t.new_frame(0x9000, 2), Ok(1));
    assert_eq!(t.entries[1].value, 0x9003);
    t.clear();
    assert_eq!(t.entries[1].value, 0);
}

#[test]
fn directory_maps_and_unmaps_pages() {
    let mut physmap = Bitmaps::new();
    let mut pd = PageDirectory::new(0x3000, 3);
    assert_eq!(pd.get_entry(1023).get_present(), 1);
    assert_eq!(pd.get_entry(0).get_present(), 0);
    assert_eq!(pd.get_page_frames(0, 3, &mut physmap), Err(()));
    assert_eq!(pd.get_page_frames(1, 3, &mut physmap), Ok(0));
    assert_eq!(physmap.used, 2);
    assert_eq!(pd.get_entry(0).get_present(), 1);
    assert_eq!(pd.get_page_frames(2, 3, &mut physmap), Ok(0x1000));
    assert_eq!(physmap.used, 4);
    pd.remove_page_frames(0x1000, 2, &mut physmap);
    assert_eq!(physmap.used, 2);
    pd.remove_page_frames(0, 1, &mut physmap);
    assert_eq!(physmap.used, 0);
    assert_eq!(pd.get_entry(0).get_present(), 0);
}

#[test]
fn directory_kernel_pages_at_addr() {
    let mut physmap = Bitmaps::new();
    let mut pd = PageDirectory::new(0x3000, 3);
    assert_eq!(pd.kget_page_frames_at_addr(0xc000_0000, 1, 3, &mut physmap), Ok(0xc000_0000));
    assert_eq!(physmap.used, 2);
    assert_eq!(pd.get_entry(768).get_present(), 1);
    assert_eq!(pd.get_page_frames_at_addr(0xc000_1000, 2, 3, &mut physmap), Ok(0xc000_1000));
    assert_eq!(physmap.used, 4);
}

#[test]
fn base_memory_zone() {
    let mut physmap = Bitmaps::new();
    let mut pd = PageDirectory::new(0x3000, 3);
    assert!(pd.get_page_frames(1, 3, &mut physmap).is_ok());
    let used_pages = physmap.used;
    let mz = MemoryZone::init(TypeZone::Anon, 0x1000, 0, false, &mut pd, &mut physmap);
    assert_eq!(used_pages + 1, physmap.used);
    assert_eq!(mz.size, 0x1000);
    assert_eq!(mz.offset, 0x1000);
    assert_eq!(mz.name, "Not yet named");
}

#[test]
fn memory_zone_for_files() {
    let mut physmap = Bitmaps::new();
    let mut pd = PageDirectory::new(0x3000, 3);
    let mz = MemoryZone::init(TypeZone::File("This is my file name"), 0x1000, WRITABLE, false, &mut pd, &mut physmap);
    assert_eq!("This is my file name", mz.name);
    let empty = MemoryZone::new();
    assert_eq!(empty.name, "");
    assert_eq!(empty.type_zone, TypeZone::Unassigned);
    let stack = MemoryZone::init_addr(0x40_0000, TypeZone::Stack, 0x2000, WRITABLE, false, &mut pd, &mut physmap);
    assert_eq!(stack.name, "stack");
    assert_eq!(stack.offset, 0x40_0000);
}

#[test]
fn init_memory_sizes() {
    let mut physmap = Bitmaps::new();
    let mut pd = PageDirectory::new(0x3000, 3);
    assert_eq!(init_memory(0x2000, 0, false, &mut pd, &mut physmap), Ok(0));
    assert_eq!(physmap.used, 3);
    assert_eq!(init_memory_addr(0x80_0000, 0x1000, 0, false, &mut pd, &mut physmap), Ok(0x80_0000));
    assert_eq!(physmap.used, 5);
}

#[test]
fn legacy_paging_entries() {
    let d = LegacyDirectory::new();
    assert_eq!(d.entries[5].value, 2);
    let e = PageDirectoryEntry::new(0x0040_0083);
    assert_eq!(e.get_present(), 1);
    assert_eq!(e.get_ps(), 1);
    assert_eq!(e.get_paddr(), 0x1000);
    let mut t = LegacyTable::new();
    assert_eq!(t.new_frame(0x5000), Ok(0));
    assert_eq!(t.entries[0].value, 0x5003);
    t.reset(0x7000);
    assert_eq!(t.entries[0].value, 0);
    assert_eq!(t.entries[1023].value, 0x7003);
}

#[test]
fn memory_zone_drop_frees_pages() {
    let mut physmap = Bitmaps::new();
    let mut pd = PageDirectory::new(0x3000, 3);
    let mz = MemoryZone::init(TypeZone::Anon, 0x2000, 0, false, &mut pd, &mut physmap);
    assert_eq!(physmap.used, 3);
    mz.drop(&mut pd, &mut physmap);
    assert_eq!(physmap.used, 0);
    MemoryZone::new().drop(&mut pd, &mut physmap);
    assert_eq!(physmap.used, 0);
}

#[test]
fn user_address_translation() {
    let mut user_map = Bitmaps::new();
    let mut user_pd = PageDirectory::new(0x3000, 3);
    assert_eq!(user_pd.get_page_frames(1, 3, &mut user_map), Ok(0));
    let mut kernel_map = Bitmaps::new();
    let mut kernel_pd = PageDirectory::new(0x3000, 3);
    assert_eq!(kernel_pd.get_page_frames_at_addr(0x40_0000, 1, 3, &mut kernel_map), Ok(0x40_0000));
    assert_eq!(
        user_pd.get_table_entry(0, 0).get_paddr(),
        kernel_pd.get_table_entry(1, 0).get_paddr()
    );
    let mut user = Process::new();
    user.owner = 1;
    assert_eq!(translate_vaddr(&user, &user_pd, &kernel_pd, 0x123), 0x40_0000);
    assert_eq!(translate_vaddr(&user, &user_pd, &kernel_pd, 0x80_0000), 0);
    let kernel = Process::new();
    assert_eq!(translate_vaddr(&kernel, &user_pd, &kernel_pd, 0x123), 0x123);
}

#[test]
fn munmap_removes_zone() {
    let mut physmap = Bitmaps::new();
    let mut pd = PageDirectory::new(0x3000, 3);
    let user_pd = PageDirectory::new(0x4000, 3);
    let mut p = Process::new();
    let first = sys_mmap(0, 0x1000, 0, 3, -1, 0, &mut p, &mut pd, &mut physmap).unwrap();
    let second = sys_mmap(0, 0x2000, 0, 3, -1, 0, &mut p, &mut pd, &mut physmap).unwrap();
    assert_eq!(physmap.used, 4);
    assert_eq!(sys_munmap(&mut p, &user_pd, &mut pd, &mut physmap, second.offset, 0x2000), 0);
    assert_eq!(p.mem_map, vec![first]);
    assert_eq!(physmap.used, 2);
}

#[test]
fn paging_setup_claims_boot_frames() {
    let mut physmap = Bitmaps::new();
    let mut pd = PageDirectory::new(0x11_0000, 3);
    let kernel_table = init_paging(&mut pd, &mut physmap, 0x11_0000, 0x10_5000, 0xc011_0000);
    assert_eq!(kernel_table, 0x61_0000);
    assert_eq!(physmap.used, 256 + 0x110 + 1024 + 1);
    assert!(physmap.is_used_page(0));
    assert!(physmap.is_used_page(1551));
    assert!(physmap.is_used_page(1552));
    assert!(!physmap.is_used_page(1553));
    assert_eq!(pd.get_entry(768).value, 0x61_0003);
    assert_eq!(pd.get_entry(1023).value, 0x11_0003);
    assert_eq!(pd.get_entry(0).value, 0);
    assert_eq!(pd.get_table_entry(768, 0).value, 0x3);
    assert_eq!(pd.get_table_entry(768, 0xb8).value, 0xb_8003);
}

fn legacy_tables() -> std::vec::Vec<LegacyTable> {
    let mut tables = std::vec::Vec::new();
    for _ in 0..1024 {
        tables.push(LegacyTable::new());
    }
    tables
}

#[test]
fn legacy_table_init_maps_up_to_directory() {
    let mut t = LegacyTable::new();
    t.init(0x9000, 0x2000);
    assert_eq!(t.entries[0].value, 0x3);
    assert_eq!(t.entries[1].value, 0x1003);
    assert_eq!(t.entries[2].value, 0x2003);
    assert_eq!(t.entries[3].value, 0);
    assert_eq!(t.entries[1022].value, 0);
    assert_eq!(t.entries[1023].value, 0x9003);
}

#[test]
fn legacy_new_page_frame_uses_present_tables() {
    let mut d = LegacyDirectory::new();
    let mut tables = legacy_tables();
    d.entries[0] = PageDirectoryEntry::new(0x1003);
    d.entries[2] = PageDirectoryEntry::new(0x3003);
    tables[2].entries[0] = kfs::paging::page_table::PageTableEntry::new(0x8003);
    assert_eq!(d.new_page_frame(&mut tables, 0x100000, 0x5000), Ok((2 << 22) | (1 << 12)));
    assert_eq!(tables[2].entries[1].value, 0x5003);
    // table 0 takes the frame too, but its page is not returned
    assert_eq!(tables[0].entries[0].value, 0x5003);
    assert_eq!(d.entries[1].value, 2);
}

#[test]
fn legacy_new_page_frame_places_a_table() {
    let mut d = LegacyDirectory::new();
    let mut tables = legacy_tables();
    d.entries[0] = PageDirectoryEntry::new(0x1003);
    for k in 0..1024 {
        tables[0].entries[k] = kfs::paging::page_table::PageTableEntry::new(0x1);
    }
    assert_eq!(d.new_page_frame(&mut tables, 0x100000, 0x5000), Ok(1 << 22));
    assert_eq!(d.entries[1].value, 0x102003);
    assert_eq!(tables[1].entries[0].value, 0x5003);
    assert_eq!(tables[1].entries[1023].value, 0x102003);
    assert_eq!(tables[0].entries[1].value, 0);
    assert_eq!(tables[0].entries[2].value, 1);
}

#[test]
fn legacy_new_page_table_takes_first_absent_entry() {
    let mut d = LegacyDirectory::new();
    let mut tables = legacy_tables();
    d.entries[0] = PageDirectoryEntry::new(0x1003);
    d.entries[1] = PageDirectoryEntry::new(0x2003);
    tables[2].entries[7] = kfs::paging::page_table::PageTableEntry::new(0x7003);
    assert_eq!(d.new_page_table(&mut tables, 0x200000), 2);
    assert_eq!(d.entries[2].value, 0x203003);
    assert_eq!(tables[2].entries[7].value, 0);
    assert_eq!(tables[2].entries[1023].value, 0x203003);
}

#[test]
fn legacy_remove_page_frame_and_table() {
    let mut d = LegacyDirectory::new();
    let mut tables = legacy_tables();
    d.entries[5] = PageDirectoryEntry::new(0x6003);
    tables[5].entries[5] = kfs::paging::page_table::PageTableEntry::new(0x9003);
    tables[5].entries[6] = kfs::paging::page_table::PageTableEntry::new(0xa003);
    d.remove_page_frame(&mut tables, 0x1405);
    assert_eq!(tables[5].entries[5].value, 0);
    assert_eq!(tables[5].entries[6].value, 0xa003);
    d.remove_page_table(&mut tables, 5);
    assert_eq!(tables[5].entries[6].value, 0);
    assert_eq!(d.entries[5].value, 2);
}

#[test]
fn tracker_reports_leaks() {
    let mut t = Tracker { allocation: 0, allocated_bytes: 0, freed: 0, freed_bytes: 0 };
    assert!(!leaks(&t));
    t.allocation = 2;
    t.allocated_bytes = 48;
    assert!(leaks(&t));
    t.freed = 2;
    t.freed_bytes = 40;
    assert!(leaks(&t));
    t.freed_bytes = 48;
    assert!(!leaks(&t));
}

#[test]
fn process_pagination() {
    let mut physmap = Bitmaps::new();
    let mut kernel = PageDirectory::new(0x3000, 3);
    assert_eq!(kernel.kget_page_frames_at_addr(0xc000_0000, 1, 3, &mut physmap), Ok(0xc000_0000));
    let heap_frame = kernel.get_table_entry(768, 0).get_paddr();
    let mut parent = Process::new();
    parent.heap.flags = 2;
    parent.stack.flags = 2;
    parent.kernel_stack.flags = 0;
    let mut child = Process::new();
    child.heap.offset = 0xc000_0123;
    child.stack.offset = 0xc000_0000;
    child.kernel_stack.offset = 0xc000_0000;
    let frames = PagingFrames { directory: 0x50_0000, heap_table: 0x51_0000, stack_table: 0x52_0000, kstack_table: 0x53_0000 };
    let layout = KernelLayout { kernel_base: 0xc000_0000, kstack_addr: 0xff00_0000, task_stack: 0xff00_1000 };
    let pd = child.setup_pagination(&parent, &kernel, frames, layout);
    assert_eq!(pd.get_entry(1023).value, 0x50_0007);
    assert_eq!(pd.get_entry(2).value, 0x51_0007);
    assert_eq!(pd.get_entry(767).value, 0x52_0007);
    assert_eq!(pd.get_entry(768).value, kernel.get_entry(768).get_paddr() | 5);
    assert_eq!(pd.get_entry(1020).value, 0x53_0005);
    assert_eq!(pd.get_entry(0).value, 0);
    assert_eq!(pd.get_table_entry(2, 0).value, heap_frame | 0x123 | 7);
    assert_eq!(pd.get_table_entry(767, 1023).value, heap_frame | 7);
    assert_eq!(pd.get_table_entry(768, 0).value, kernel.get_table_entry(768, 0).value);
    assert_eq!(pd.get_table_entry(1020, 0).value, heap_frame | 7);
    // the task stack is not mapped by the kernel here: frame 0
    assert_eq!(pd.get_table_entry(1020, 1).value, 7);
}
