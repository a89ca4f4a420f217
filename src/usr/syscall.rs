//! System calls from user mode: the number goes in x17 and up to four
//! arguments in x10..x13; the result comes back in x10. The caller issues the
//! `ecall` with the registers these functions compute.
use vstd::prelude::*;

verus! {

#[derive(Copy, Clone, Debug, PartialEq, Eq, Structural)]
pub enum SyscallId {
    Write,
    Exit,
}

pub open spec fn id_number(id: SyscallId) -> usize {
    match id {
        SyscallId::Write => 64,
        SyscallId::Exit => 93,
    }
}

/// The registers of one system call: x17 and x10..x13.
#[derive(Copy, Clone, Debug)]
pub struct SyscallRequest {
    pub id: usize,
    pub args: [usize; 4],
}

fn sys_call(syscall_id: SyscallId, arg0: usize, arg1: usize, arg2: usize, arg3: usize) -> (r:
    SyscallRequest)
    ensures
        r.id == id_number(syscall_id),
        r.args@ == seq![arg0, arg1, arg2, arg3],
{
    let id: usize = match syscall_id {
        SyscallId::Write => 64,
        SyscallId::Exit => 93,
    };
    let r = SyscallRequest { id, args: [arg0, arg1, arg2, arg3] };
    assert(r.args@ =~= seq![arg0, arg1, arg2, arg3]);
    r
}

/// Writes the byte `ch` to the console.
pub fn sys_write(ch: u8) -> (r: SyscallRequest)
    ensures
        r.id == 64,
        r.args@ == seq![ch as usize, 0usize, 0usize, 0usize],
{
    sys_call(SyscallId::Write, ch as usize, 0, 0, 0)
}

/// Ends the calling program with `code`; the call does not return.
pub fn sys_exit(code: usize) -> (r: SyscallRequest)
    ensures
        r.id == 93,
        r.args@ == seq![code, 0usize, 0usize, 0usize],
{
    sys_call(SyscallId::Exit, code, 0, 0, 0)
}

} // verus!
