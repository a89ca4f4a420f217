//! Sv32 page-table entries: bits 9..0 are flags (V, R, W, X, U, G, A, D and
//! two reserved), bits 31..10 the physical page number pointed to.
use vstd::prelude::*;
use crate::new_memory::{Frame, FRAME_LIMIT};

verus! {

#[derive(Copy, Clone, Debug, PartialEq, Eq, Structural)]
pub enum EntryBits {
    Clear,
    Valid,
    Read,
    Write,
    Execute,
    User,
    Global,
    Access,
    Dirty,
    ReadWrite,
    ReadExecute,
    ReadWriteExecute,
    UserReadWrite,
    UserReadExecute,
    UserReadWriteExecute,
}

pub open spec fn bits_of(b: EntryBits) -> u32 {
    match b {
        EntryBits::Clear => 0,
        EntryBits::Valid => 0x1,
        EntryBits::Read => 0x2,
        EntryBits::Write => 0x4,
        EntryBits::Execute => 0x8,
        EntryBits::User => 0x10,
        EntryBits::Global => 0x20,
        EntryBits::Access => 0x40,
        EntryBits::Dirty => 0x80,
        EntryBits::ReadWrite => 0x6,
        EntryBits::ReadExecute => 0xa,
        EntryBits::ReadWriteExecute => 0xe,
        EntryBits::UserReadWrite => 0x16,
        EntryBits::UserReadExecute => 0x1a,
        EntryBits::UserReadWriteExecute => 0x1e,
    }
}

impl EntryBits {
    /// The flag bits this names.
    pub fn val(self) -> (r: u32)
        ensures
            r == bits_of(self),
    {
        match self {
            EntryBits::Clear => 0,
            EntryBits::Valid => 0x1,
            EntryBits::Read => 0x2,
            EntryBits::Write => 0x4,
            EntryBits::Execute => 0x8,
            EntryBits::User => 0x10,
            EntryBits::Global => 0x20,
            EntryBits::Access => 0x40,
            EntryBits::Dirty => 0x80,
            EntryBits::ReadWrite => 0x6,
            EntryBits::ReadExecute => 0xa,
            EntryBits::ReadWriteExecute => 0xe,
            EntryBits::UserReadWrite => 0x16,
            EntryBits::UserReadExecute => 0x1a,
            EntryBits::UserReadWriteExecute => 0x1e,
        }
    }
}

/// The entry pointing at frame number `number` with `flags`.
pub open spec fn entry_for(number: usize, flags: u32) -> u32 {
    ((number as u32) << 10u32) | flags
}

pub open spec fn valid_bit(e: u32) -> bool {
    e & 1 != 0
}

pub open spec fn leaf_bits(e: u32) -> bool {
    e & 0xe != 0
}

/// The frame number an entry points to.
pub open spec fn ppn_of(e: u32) -> usize {
    (e >> 10u32) as usize
}

#[derive(Copy, Clone, Debug, PartialEq, Eq, Structural)]
pub struct Entry {
    pub entry: u32,
}

impl Entry {
    /// An entry with every bit clear.
    pub fn zero() -> (r: Entry)
        ensures
            r.entry == 0,
    {
        Entry { entry: 0 }
    }

    pub fn is_valid(&self) -> (r: bool)
        ensures
            r == valid_bit(self.entry),
    {
        self.get_entry() & EntryBits::Valid.val() != 0
    }

    pub fn is_invalid(&self) -> (r: bool)
        ensures
            r == !valid_bit(self.entry),
    {
        !self.is_valid()
    }

    /// A leaf has one or more of the R, W, X bits set.
    pub fn is_leaf(&self) -> (r: bool)
        ensures
            r == leaf_bits(self.entry),
    {
        self.get_entry() & 0xe != 0
    }

    /// A branch is valid and has none of the R, W, X bits: it points to a
    /// next-level table.
    pub fn is_branch(&self) -> (r: bool)
        ensures
            r == (valid_bit(self.entry) && !leaf_bits(self.entry)),
    {
        self.is_valid() && !self.is_leaf()
    }

    /// Points the entry at `frame` with `flags`.
    pub fn set(&mut self, frame: Frame, flags: u32)
        requires
            frame.number < FRAME_LIMIT,
        ensures
            final(self).entry == entry_for(frame.number, flags),
    {
        self.entry = ((frame.number as u32) << 10u32) | flags;
    }

    pub fn set_entry(&mut self, entry: u32)
        ensures
            final(self).entry == entry,
    {
        self.entry = entry;
    }

    pub fn get_entry(&self) -> (r: u32)
        ensures
            r == self.entry,
    {
        self.entry
    }

    /// The frame the entry points to, if it is valid.
    pub fn pointed_frame(&self) -> (r: Option<Frame>)
        ensures
            r == (if valid_bit(self.entry) {
                Some(Frame { number: ppn_of(self.entry) })
            } else {
                None
            }),
    {
        if self.is_valid() {
            Some(Frame { number: (self.get_entry() >> 10u32) as usize })
        } else {
            None
        }
    }
}

/// An entry made by `set` points at the frame it was given, is valid when the
/// flags say so, and is a leaf when the flags have R, W or X.
pub proof fn lemma_entry_for(number: usize, flags: u32)
    requires
        number < FRAME_LIMIT,
        flags < 0x400,
    ensures
        ppn_of(entry_for(number, flags)) == number,
        valid_bit(entry_for(number, flags)) == (flags & 1 != 0),
        leaf_bits(entry_for(number, flags)) == (flags & 0xe != 0),
        entry_for(number, flags) != 0 || number == 0,
{
    let n = number as u32;
    assert(n as usize == number);
    assert((((n << 10u32) | flags) >> 10u32) == n) by (bit_vector)
        requires
            n < 0x10_0000,
            flags < 0x400,
    ;
    assert((((n << 10u32) | flags) & 1) == (flags & 1)) by (bit_vector)
        requires
            flags < 0x400,
    ;
    assert((((n << 10u32) | flags) & 0xe) == (flags & 0xe)) by (bit_vector)
        requires
            flags < 0x400,
    ;
    assert(((n << 10u32) | flags) != 0 || n == 0) by (bit_vector)
        requires
            n < 0x10_0000,
    ;
}

/// The zero entry is invalid.
pub proof fn lemma_zero_entry()
    ensures
        !valid_bit(0),
        !leaf_bits(0),
{
    assert(0u32 & 1 == 0) by (bit_vector);
    assert(0u32 & 0xe == 0) by (bit_vector);
}

} // verus!
