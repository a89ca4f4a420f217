//! The SBI firmware call interface. A call places its arguments in a0..a2
//! and the function id in a7 and returns a0; the caller issues the `ecall`
//! with the registers these functions compute.
use vstd::prelude::*;

verus! {

pub const SBI_SET_TIMER: usize = 0x00;

pub const SBI_CONSOLE_PUTCHAR: usize = 0x01;

pub const SBI_CONSOLE_GETCHAR: usize = 0x02;

pub const SBI_CLEAR_IPI: usize = 0x03;

pub const SBI_SEND_IPI: usize = 0x04;

pub const SBI_REMOTE_FENCE_I: usize = 0x05;

pub const SBI_REMOTE_SFENCE_VMA: usize = 0x06;

pub const SBI_REMOTE_SFENCE_VMA_ASID: usize = 0x07;

pub const SBI_SHUTDOWN: usize = 0x08;

pub const SBI_SUCCESS: isize = 0;

pub const SBI_ERR_FAILURE: isize = -1;

pub const SBI_ERR_NOT_SUPPORTED: isize = -2;

pub const SBI_ERR_INVALID_PARAM: isize = -3;

pub const SBI_ERR_DENIED: isize = -4;

pub const SBI_ERR_INVALID_ADDRESS: isize = -5;

/// The registers of one SBI call: a7 and a0..a2.
#[derive(Copy, Clone, Debug, PartialEq, Eq, Structural)]
pub struct SbiCall {
    pub func: usize,
    pub arg0: usize,
    pub arg1: usize,
    pub arg2: usize,
}

pub open spec fn call(func: usize, arg0: usize, arg1: usize, arg2: usize) -> SbiCall {
    SbiCall { func, arg0, arg1, arg2 }
}

/// The call that programs the timer for `stime_value`; the 64-bit value is
/// split across a0 (low half) and a1 (high half).
pub open spec fn set_timer_call(stime_value: u64) -> SbiCall {
    call(
        SBI_SET_TIMER,
        (stime_value % 0x1_0000_0000) as usize,
        (stime_value / 0x1_0000_0000) as usize,
        0,
    )
}

fn sbi_call(func: usize, arg0: usize, arg1: usize, arg2: usize) -> (r: SbiCall)
    ensures
        r == call(func, arg0, arg1, arg2),
{
    SbiCall { func, arg0, arg1, arg2 }
}

/// Programs the clock for the next event at `stime_value`; this also clears
/// the pending timer interrupt.
pub fn set_timer(stime_value: u64) -> (r: SbiCall)
    ensures
        r == set_timer_call(stime_value),
{
    sbi_call(
        SBI_SET_TIMER,
        (stime_value % 0x1_0000_0000) as usize,
        (stime_value / 0x1_0000_0000) as usize,
        0,
    )
}

/// Writes `ch` to the debug console.
pub fn console_putchar(ch: usize) -> (r: SbiCall)
    ensures
        r == call(SBI_CONSOLE_PUTCHAR, ch, 0, 0),
{
    sbi_call(SBI_CONSOLE_PUTCHAR, ch, 0, 0)
}

/// Reads a byte from the debug console (-1 when none is available).
pub fn console_getchar() -> (r: SbiCall)
    ensures
        r == call(SBI_CONSOLE_GETCHAR, 0, 0, 0),
{
    sbi_call(SBI_CONSOLE_GETCHAR, 0, 0, 0)
}

/// Powers down all harts.
pub fn shutdown() -> (r: SbiCall)
    ensures
        r == call(SBI_SHUTDOWN, 0, 0, 0),
{
    sbi_call(SBI_SHUTDOWN, 0, 0, 0)
}

pub fn clear_ipi() -> (r: SbiCall)
    ensures
        r == call(SBI_CLEAR_IPI, 0, 0, 0),
{
    sbi_call(SBI_CLEAR_IPI, 0, 0, 0)
}

/// Sends an inter-processor interrupt to the harts of the mask stored at
/// `hart_mask` (an address).
pub fn send_ipi(hart_mask: usize) -> (r: SbiCall)
    ensures
        r == call(SBI_SEND_IPI, hart_mask, 0, 0),
{
    sbi_call(SBI_SEND_IPI, hart_mask, 0, 0)
}

pub fn remote_fence_i(hart_mask: usize) -> (r: SbiCall)
    ensures
        r == call(SBI_REMOTE_FENCE_I, hart_mask, 0, 0),
{
    sbi_call(SBI_REMOTE_FENCE_I, hart_mask, 0, 0)
}

pub fn remote_sfence_vma(hart_mask: usize, _start: usize, _size: usize) -> (r: SbiCall)
    ensures
        r == call(SBI_REMOTE_SFENCE_VMA, hart_mask, 0, 0),
{
    sbi_call(SBI_REMOTE_SFENCE_VMA, hart_mask, 0, 0)
}

pub fn remote_sfence_vma_asid(hart_mask: usize, _start: usize, _size: usize, _asid: usize) -> (r:
    SbiCall)
    ensures
        r == call(SBI_REMOTE_SFENCE_VMA_ASID, hart_mask, 0, 0),
{
    sbi_call(SBI_REMOTE_SFENCE_VMA_ASID, hart_mask, 0, 0)
}

} // verus!
