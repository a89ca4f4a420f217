use vstd::prelude::*;

verus! {

/// The kernel's version, printed at boot.
pub const VERSION: &'static str = "0.3.0";

/// Physical address where RAM starts.
pub const MEMORY_OFFSET: usize = 0x8000_0000;

/// End (exclusive) of the physical RAM window.
pub const MEMORY_END: usize = 0x8800_0000;

/// Size of a page and of a frame, in bytes.
pub const PAGE_SIZE: usize = 4096;

/// Virtual base of the kernel's high half.
pub const KERNEL_OFFSET: usize = 0xC000_0000;

/// Size of the static kernel heap arena.
pub const KERNEL_HEAP_SIZE: usize = 0x0010_0000;

/// Size of each kernel thread's stack.
pub const STACK_SIZE: usize = 0x8000;

/// Size of a user-mode stack.
pub const USER_STACK_SIZE: usize = 0x10000;

/// Where a user-mode stack is placed.
pub const USER_STACK_OFFSET: usize = 0x8000_0000 - 0x10000;

/// Base address of the memory-mapped UART.
pub const UART_BASE: usize = 0x1000_0000;

} // verus!
