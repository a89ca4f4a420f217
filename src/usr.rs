//! The user-mode runtime: console output and system calls as a user program
//! makes them.
pub mod io;
pub mod syscall;
