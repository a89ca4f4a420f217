//! Console output from user mode: one write system call per character (its
//! low byte).
use vstd::prelude::*;
use crate::usr::syscall::{sys_write, SyscallRequest};

verus! {

/// `r` is the write system call for `ch`.
pub open spec fn write_request(ch: char, r: SyscallRequest) -> bool {
    r.id == 64 && r.args@ == seq![(ch as u32 as u8) as usize, 0usize, 0usize, 0usize]
}

pub fn putchar(ch: char) -> (r: SyscallRequest)
    ensures
        write_request(ch, r),
{
    sys_write(ch as u32 as u8)
}

/// The system calls that print `s`, one per character, in order.
pub fn puts(s: &str) -> (r: Vec<SyscallRequest>)
    ensures
        r@.len() == s@.len(),
        forall|i: int| 0 <= i < s@.len() ==> write_request(s@[i], #[trigger] r@[i]),
{
    let n = s.unicode_len();
    let mut out: Vec<SyscallRequest> = Vec::new();
    let mut i: usize = 0;
    while i < n
        invariant
            n == s@.len(),
            i <= n,
            out@.len() == i,
            forall|j: int| 0 <= j < i ==> write_request(s@[j], #[trigger] out@[j]),
        decreases n - i,
    {
        out.push(putchar(s.get_char(i)));
        i = i + 1;
    }
    out
}

} // verus!
