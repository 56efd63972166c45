//! The numbers of a value tree.
use vstd::prelude::*;

verus! {

/// A number of a value tree. A floating-point number is held by the 64 bits
/// of its IEEE 754 representation, and two of them are the same number when
/// their bits are. Where every NaN is to count as the same number, and
/// `-0.0` as `0.0`, the bits are made the same before they come here.
#[derive(Debug, Clone, Copy, PartialEq, Eq, Structural)]
pub enum Number {
    /// A number that is not negative.
    PosInt(u64),
    /// A negative number.
    NegInt(i64),
    /// The bits of a floating-point number.
    Float(u64),
}

impl Number {
    /// The number of a captured `number` variable.
    pub fn from_u32(n: u32) -> (number: Self)
        ensures
            number == Number::PosInt(n as u64),
    {
        Number::PosInt(n as u64)
    }
}

} // verus!
