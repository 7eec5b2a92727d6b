use vstd::prelude::*;

verus! {

/// A real-valued generation parameter (a temperature, a nucleus threshold),
/// carried by the 64 bits of its double-precision encoding. The library
/// hands such a number on unread, so the bits are all it keeps; two numbers
/// are equal here when their bits are.
#[derive(Debug, Clone, Copy, PartialEq, Eq, Structural)]
pub struct FloatBits {
    pub bits: u64,
}

impl FloatBits {
    /// The number with the encoding `bits`.
    pub fn from_bits(bits: u64) -> (number: FloatBits)
        ensures
            number.bits == bits,
    {
        FloatBits { bits }
    }

    /// The number's encoding.
    pub fn to_bits(&self) -> (bits: u64)
        ensures
            bits == self.bits,
    {
        self.bits
    }
}

} // verus!
