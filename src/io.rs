//! Console output through the SBI console-putchar call, one byte per
//! character (a character's low byte).
use vstd::prelude::*;
use crate::sbi::{call, console_putchar, SbiCall, SBI_CONSOLE_PUTCHAR};

verus! {

/// The byte the console receives for `ch`.
pub open spec fn byte_of(ch: char) -> u8 {
    ch as u32 as u8
}

/// The SBI call that prints `ch`.
pub open spec fn putchar_call(ch: char) -> SbiCall {
    call(SBI_CONSOLE_PUTCHAR, byte_of(ch) as usize, 0, 0)
}

pub fn putchar(ch: char) -> (r: SbiCall)
    ensures
        r == putchar_call(ch),
{
    console_putchar(ch as u32 as u8 as usize)
}

/// The calls that print `s`, one per character, in order.
pub fn puts(s: &str) -> (r: Vec<SbiCall>)
    ensures
        r@.len() == s@.len(),
        forall|i: int| 0 <= i < s@.len() ==> #[trigger] r@[i] == putchar_call(s@[i]),
{
    let n = s.unicode_len();
    let mut out: Vec<SbiCall> = Vec::new();
    let mut i: usize = 0;
    while i < n
        invariant
            n == s@.len(),
            i <= n,
            out@.len() == i,
            forall|j: int| 0 <= j < i ==> #[trigger] out@[j] == putchar_call(s@[j]),
        decreases n - i,
    {
        out.push(putchar(s.get_char(i)));
        i = i + 1;
    }
    out
}

} // verus!
