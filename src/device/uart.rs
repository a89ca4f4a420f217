//! A 16550-style UART behind eight byte registers. The driver computes the
//! register writes; the caller performs them as volatile byte stores.
use vstd::prelude::*;

verus! {

/// In: receive buffer; out: transmit buffer (divisor latch low with DLAB).
pub const COM_RX: usize = 0;

pub const COM_TX: usize = 0;

pub const COM_DLL: usize = 0;

/// Out: divisor latch high (with DLAB).
pub const COM_DLM: usize = 1;

/// Out: interrupt enable register.
pub const COM_IER: usize = 1;

/// Enable receiver data interrupt.
pub const COM_IER_RDI: u8 = 0x01;

/// In: interrupt id register; out: FIFO control register.
pub const COM_IIR: usize = 2;

pub const COM_FCR: usize = 2;

/// Out: line control register.
pub const COM_LCR: usize = 3;

/// Divisor latch access bit.
pub const COM_LCR_DLAB: u8 = 0x80;

/// Word length: 8 bits.
pub const COM_LCR_WLEN8: u8 = 0x03;

/// Out: modem control register.
pub const COM_MCR: usize = 4;

/// In: line status register.
pub const COM_LSR: usize = 5;

/// Data available.
pub const COM_LSR_DATA: u8 = 0x01;

/// Baud-rate divisor: ceil(22_729_000 / (2400 * 16)).
pub const DIVISOR: u16 = 592;

/// One byte store to a device register.
#[derive(Copy, Clone, Debug, PartialEq, Eq, Structural)]
pub struct RegWrite {
    pub addr: usize,
    pub value: u8,
}

pub struct Uart {
    pub base_address: usize,
}

impl Uart {
    pub fn new(base_address: usize) -> (r: Self)
        ensures
            r.base_address == base_address,
    {
        Uart { base_address }
    }

    /// The writes that set up the port, in order: 8-bit words, FIFO on,
    /// receive interrupts on, then the divisor through the opened latch, and
    /// the latch closed again.
    pub fn init(&self) -> (r: Vec<RegWrite>)
        requires
            self.base_address <= usize::MAX - 8,
        ensures
            r@ == seq![
                RegWrite { addr: (self.base_address + 3) as usize, value: 3 },
                RegWrite { addr: (self.base_address + 2) as usize, value: 1 },
                RegWrite { addr: (self.base_address + 1) as usize, value: 1 },
                RegWrite { addr: (self.base_address + 3) as usize, value: 0x83 },
                RegWrite { addr: self.base_address, value: 0x50 },
                RegWrite { addr: (self.base_address + 1) as usize, value: 0x02 },
                RegWrite { addr: (self.base_address + 3) as usize, value: 3 },
            ],
    {
        let base = self.base_address;
        let lcr: u8 = COM_LCR_WLEN8;
        let divisor_least: u8 = (DIVISOR % 256) as u8;
        let divisor_most: u8 = (DIVISOR / 256) as u8;
        let mut w: Vec<RegWrite> = Vec::new();
        w.push(RegWrite { addr: base + COM_LCR, value: lcr });
        w.push(RegWrite { addr: base + COM_FCR, value: 1 });
        w.push(RegWrite { addr: base + COM_IER, value: COM_IER_RDI });
        w.push(RegWrite { addr: base + COM_LCR, value: lcr + COM_LCR_DLAB });
        w.push(RegWrite { addr: base + COM_DLL, value: divisor_least });
        w.push(RegWrite { addr: base + COM_DLM, value: divisor_most });
        w.push(RegWrite { addr: base + COM_LCR, value: lcr });
        proof {
            assert(w@ =~= seq![
                RegWrite { addr: (self.base_address + 3) as usize, value: 3 },
                RegWrite { addr: (self.base_address + 2) as usize, value: 1 },
                RegWrite { addr: (self.base_address + 1) as usize, value: 1 },
                RegWrite { addr: (self.base_address + 3) as usize, value: 0x83 },
                RegWrite { addr: self.base_address, value: 0x50 },
                RegWrite { addr: (self.base_address + 1) as usize, value: 0x02 },
                RegWrite { addr: (self.base_address + 3) as usize, value: 3 },
            ]);
        }
        w
    }

    /// The write that transmits `c` (no wait for the transmitter).
    pub fn put(&self, c: u8) -> (r: RegWrite)
        ensures
            r == (RegWrite { addr: self.base_address, value: c }),
    {
        RegWrite { addr: self.base_address + COM_TX, value: c }
    }

    /// The address of the line status register.
    pub fn line_status_address(&self) -> (r: usize)
        requires
            self.base_address <= usize::MAX - 8,
        ensures
            r == self.base_address + 5,
    {
        self.base_address + COM_LSR
    }

    /// The received byte, given the line status read and the receive
    /// buffer: present only when the data-ready bit is set.
    pub fn get(&self, line_status: u8, received: u8) -> (r: Option<u8>)
        ensures
            r == (if line_status % 2 == 1 {
                Some(received)
            } else {
                None
            }),
    {
        if line_status % 2 == 0 {
            None
        } else {
            Some(received)
        }
    }
}

} // verus!
