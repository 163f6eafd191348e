//! The reasons for which the library refuses.

use vstd::prelude::*;

verus! {

/// Why a batch, or a credit to the running totals, was refused.
#[derive(Clone, Copy, Debug, PartialEq, Eq, Structural)]
pub enum AirdropError {
    /// The sender's or a recipient's address is no well-formed account address.
    AddressParse,
    /// A denomination is no well-formed currency-unit identifier.
    DenominationParse,
    /// A denomination's total would not fit in 128 bits.
    ArithmeticOverflow,
}

} // verus!
