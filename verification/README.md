# kfs

A small i386 kernel's logic as a verified library: the functions in
`src/` carry `requires`/`ensures` contracts that Verus proves (an accessor
such as `Vec::allocator`, whose result has a single possible value, has
none).

- `memory/`: the frame bitmap, page tables and directories, memory zones,
  the kernel allocator's alignment helpers, its allocation tracker and
  `Box`; `paging/` holds the first, simpler paging layout.
- `proc/`: processes kept in a tree by pid, their signals, the task
  queue and the scheduler's decisions; `paging.rs` builds a new process's
  page directory; `args.rs` lays a started function's arguments out on
  its stack; `lifecycle.rs` holds what the tree operations keep and what
  a wait gives back of an exit.
- `syscalls/`: fork, kill, signal, wait, mmap/munmap and the identity
  calls, over the process tree.
- `pci/`, `pic/`, `vga_buffer/`, `io.rs`: device logic expressed as the
  port writes to perform and the values read back. Drive detection
  (`pci/ide/detect.rs`), ATA transfers (`transfer.rs`), ATAPI capacity
  requests (`packet_capacity.rs`), reads (`packet_read.rs`) and ejects
  (`packet_eject.rs`) are state machines
  that decide one port access per step; `app/` performs the accesses.
- `multiboot.rs`, `bytes.rs`: walking and decoding the boot loader's tags.
- `sound/`: songs as timed notes for the PC speaker.
- `string/`, `vec/`, `utils/`, `time.rs`: containers, paths, flags,
  queues and calendar arithmetic.

`app/` is the host program around the library: a port bus, the spin
lock, floating point timer and speaker settings, and the loops that
perform the port accesses and waits the library decides on, and the
memory copies and argument writes around making a process.
