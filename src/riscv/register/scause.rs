//! The `scause` register: the top bit tells an interrupt from an exception,
//! the other bits hold the cause code.
use vstd::prelude::*;

verus! {

#[derive(Clone, Copy, Debug)]
pub struct Scause {
    pub bits: usize,
}

/// Trap Cause
#[derive(Copy, Clone, Debug, Eq, PartialEq, Structural)]
pub enum Trap {
    Interrupt(Interrupt),
    Exception(Exception),
}

/// Interrupt
#[derive(Copy, Clone, Debug, Eq, PartialEq, Structural)]
pub enum Interrupt {
    UserSoftwareInterrupt,
    SupervisorSoftwareInterrupt,
    MachineSoftwareInterrupt,
    UserTimerInterrupt,
    SupervisorTimerInterrupt,
    MachineTimerInterrupt,
    UserExternalInterrupt,
    SupervisorExternalInterrupt,
    MachineExternalInterrupt,
    Unknown,
}

/// Exception
#[derive(Copy, Clone, Debug, Eq, PartialEq, Structural)]
pub enum Exception {
    InstructionMisaligned,
    InstructionFault,
    IllegalInstruction,
    Breakpoint,
    LoadAddressMisaligned,
    LoadAccessFault,
    StoreAddressMisaligned,
    StoreAccessFault,
    UserEnvCall,
    InstructionPageFault,
    LoadPageFault,
    StorePageFault,
    Unknown,
}

pub open spec fn interrupt_of(nr: int) -> Interrupt {
    if nr == 0 {
        Interrupt::UserSoftwareInterrupt
    } else if nr == 1 {
        Interrupt::SupervisorSoftwareInterrupt
    } else if nr == 3 {
        Interrupt::MachineSoftwareInterrupt
    } else if nr == 4 {
        Interrupt::UserTimerInterrupt
    } else if nr == 5 {
        Interrupt::SupervisorTimerInterrupt
    } else if nr == 7 {
        Interrupt::MachineTimerInterrupt
    } else if nr == 8 {
        Interrupt::UserExternalInterrupt
    } else if nr == 9 {
        Interrupt::SupervisorExternalInterrupt
    } else if nr == 11 {
        Interrupt::MachineExternalInterrupt
    } else {
        Interrupt::Unknown
    }
}

pub open spec fn exception_of(nr: int) -> Exception {
    if nr == 0 {
        Exception::InstructionMisaligned
    } else if nr == 1 {
        Exception::InstructionFault
    } else if nr == 2 {
        Exception::IllegalInstruction
    } else if nr == 3 {
        Exception::Breakpoint
    } else if nr == 4 {
        Exception::LoadAddressMisaligned
    } else if nr == 5 {
        Exception::LoadAccessFault
    } else if nr == 6 {
        Exception::StoreAddressMisaligned
    } else if nr == 7 {
        Exception::StoreAccessFault
    } else if nr == 8 {
        Exception::UserEnvCall
    } else if nr == 12 {
        Exception::InstructionPageFault
    } else if nr == 13 {
        Exception::LoadPageFault
    } else if nr == 15 {
        Exception::StorePageFault
    } else {
        Exception::Unknown
    }
}

/// The most significant bit of a register value.
pub open spec fn top_bit_set(bits: usize) -> bool {
    bits > usize::MAX / 2
}

/// A register value without its most significant bit.
pub open spec fn code_of(bits: usize) -> int {
    if top_bit_set(bits) {
        bits - (usize::MAX / 2 + 1)
    } else {
        bits as int
    }
}

pub open spec fn cause_of(bits: usize) -> Trap {
    if top_bit_set(bits) {
        Trap::Interrupt(interrupt_of(code_of(bits)))
    } else {
        Trap::Exception(exception_of(code_of(bits)))
    }
}

impl Interrupt {
    pub fn from(nr: usize) -> (r: Self)
        ensures
            r == interrupt_of(nr as int),
    {
        match nr {
            0 => Interrupt::UserSoftwareInterrupt,
            1 => Interrupt::SupervisorSoftwareInterrupt,
            3 => Interrupt::MachineSoftwareInterrupt,
            4 => Interrupt::UserTimerInterrupt,
            5 => Interrupt::SupervisorTimerInterrupt,
            7 => Interrupt::MachineTimerInterrupt,
            8 => Interrupt::UserExternalInterrupt,
            9 => Interrupt::SupervisorExternalInterrupt,
            11 => Interrupt::MachineExternalInterrupt,
            _ => Interrupt::Unknown,
        }
    }
}

impl Exception {
    pub fn from(nr: usize) -> (r: Self)
        ensures
            r == exception_of(nr as int),
    {
        match nr {
            0 => Exception::InstructionMisaligned,
            1 => Exception::InstructionFault,
            2 => Exception::IllegalInstruction,
            3 => Exception::Breakpoint,
            4 => Exception::LoadAddressMisaligned,
            5 => Exception::LoadAccessFault,
            6 => Exception::StoreAddressMisaligned,
            7 => Exception::StoreAccessFault,
            8 => Exception::UserEnvCall,
            12 => Exception::InstructionPageFault,
            13 => Exception::LoadPageFault,
            15 => Exception::StorePageFault,
            _ => Exception::Unknown,
        }
    }
}

impl Scause {
    /// The copy of a register value that was read.
    pub fn from_bits(bits: usize) -> (r: Scause)
        ensures
            r.bits == bits,
    {
        Scause { bits }
    }

    /// Returns the contents of the register as raw bits
    pub fn bits(&self) -> (r: usize)
        ensures
            r == self.bits,
    {
        self.bits
    }

    /// Returns the code field
    pub fn code(&self) -> (r: usize)
        ensures
            r == code_of(self.bits),
    {
        if self.bits > usize::MAX / 2 {
            self.bits - (usize::MAX / 2 + 1)
        } else {
            self.bits
        }
    }

    /// Trap Cause
    pub fn cause(&self) -> (r: Trap)
        ensures
            r == cause_of(self.bits),
    {
        if self.is_interrupt() {
            Trap::Interrupt(Interrupt::from(self.code()))
        } else {
            Trap::Exception(Exception::from(self.code()))
        }
    }

    /// Is trap cause an interrupt.
    pub fn is_interrupt(&self) -> (r: bool)
        ensures
            r == top_bit_set(self.bits),
    {
        self.bits > usize::MAX / 2
    }

    /// Is trap cause an exception.
    pub fn is_exception(&self) -> (r: bool)
        ensures
            r == !top_bit_set(self.bits),
    {
        !self.is_interrupt()
    }
}

} // verus!
