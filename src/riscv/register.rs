pub mod satp;
pub mod scause;
pub mod sstatus;
pub mod stvec;
