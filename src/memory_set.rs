//! Page attributes for the single-level mapper: always valid, optionally
//! readable, writable, executable.
use vstd::prelude::*;

verus! {

pub struct MemoryAttr(pub u32);

impl MemoryAttr {
    /// Valid, nothing else.
    pub fn new() -> (r: MemoryAttr)
        ensures
            r.0 == 1,
    {
        MemoryAttr(1)
    }

    pub fn set_readonly(self) -> (r: MemoryAttr)
        ensures
            r.0 == self.0 | 0b10,
    {
        MemoryAttr(self.0 | 0b10)
    }

    pub fn set_execute(self) -> (r: MemoryAttr)
        ensures
            r.0 == self.0 | 0b1000,
    {
        MemoryAttr(self.0 | 0b1000)
    }

    #[allow(non_snake_case)]
    pub fn set_WR(self) -> (r: MemoryAttr)
        ensures
            r.0 == self.0 | 0b110,
    {
        let bits = self.0;
        assert(bits | 0b10 | 0b100 == bits | 0b110) by (bit_vector);
        MemoryAttr(bits | 0b10 | 0b100)
    }
}

} // verus!
