pub mod bytes;
pub mod errno;
pub mod io;
pub mod memory;
pub mod multiboot;
pub mod paging;
pub mod pci;
pub mod pic;
pub mod proc;
pub mod sound;
pub mod vec;
pub mod string;
pub mod syscalls;
pub mod time;
pub mod utils;
pub mod vga_buffer;
