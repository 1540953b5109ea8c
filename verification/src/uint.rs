//! 256-bit unsigned numbers, kept as 32 big-endian bytes.
use crate::bytes::{be_repr, be_value, lemma_be_repr_of_value, u64_to_word, word_to_u64, B256};
use vstd::prelude::*;

verus! {

/// A 256-bit unsigned number.
#[derive(Clone, Copy, Debug, PartialEq, Eq)]
pub struct U256 {
    /// The number's 32 bytes, most significant first.
    pub be: B256,
}

impl U256 {
    /// The number itself.
    pub open spec fn value(&self) -> nat {
        be_value(self.be@)
    }

    /// The number whose big-endian bytes are `bytes`.
    pub fn from_be_bytes(bytes: B256) -> (r: Self)
        ensures
            r.be == bytes,
            r.value() == be_value(bytes@),
    {
        U256 { be: bytes }
    }

    /// The number's 32 big-endian bytes.
    pub fn to_be_bytes(&self) -> (r: B256)
        ensures
            r == self.be,
            r@ == be_repr(self.value(), 32),
    {
        proof {
            lemma_be_repr_of_value(self.be@);
        }
        self.be
    }

    /// The 256-bit number equal to `x`.
    pub fn from_u64(x: u64) -> (r: Self)
        ensures
            r.value() == x,
            r.be@ == be_repr(x as nat, 32),
    {
        U256 { be: u64_to_word(x) }
    }

    /// The number as a 64-bit one, if it is small enough.
    pub fn to_u64(&self) -> (r: Option<u64>)
        ensures
            r matches Some(x) ==> self.value() == x,
            r is None <==> self.value() > u64::MAX,
    {
        word_to_u64(&self.be)
    }
}

} // verus!
