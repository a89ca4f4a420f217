//! A single-hart RISC-V kernel core: address decoding, trap dispatch, the
//! buddy/frame allocators, a two-level page-table model and a round-robin
//! kernel-thread scheduler. The hardware itself (CSRs, the SBI `ecall`, memory
//! mapped devices, the context-switch routine) is driven by the caller; this
//! crate computes what is written there and decides what happens next.
pub mod clock;
pub mod consts;
pub mod context;
pub mod device;
pub mod interrupt;
pub mod memory;
pub mod io;
pub mod memory_set;
pub mod new_memory;
pub mod process;
pub mod riscv;
pub mod sbi;
pub mod usr;
