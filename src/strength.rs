//! The cipher strength that the listener chooses for a session.

use vstd::prelude::*;

verus! {

/// AES key size; the counter block stays 128 bits for all three.
#[derive(Clone, Copy, Debug, PartialEq, Eq, Structural)]
pub enum CipherStrength {
    Strength128,
    Strength192,
    Strength256,
}

impl CipherStrength {
    pub open spec fn spec_bits(self) -> nat {
        match self {
            CipherStrength::Strength128 => 128,
            CipherStrength::Strength192 => 192,
            CipherStrength::Strength256 => 256,
        }
    }

    /// Session key length in bytes.
    pub open spec fn spec_key_len(self) -> nat {
        self.spec_bits() / 8
    }

    pub open spec fn spec_from_bits(bits: int) -> Option<CipherStrength> {
        if bits == 128 {
            Some(CipherStrength::Strength128)
        } else if bits == 192 {
            Some(CipherStrength::Strength192)
        } else if bits == 256 {
            Some(CipherStrength::Strength256)
        } else {
            None
        }
    }

    pub fn bits(&self) -> (r: u64)
        ensures
            r == self.spec_bits(),
    {
        match self {
            CipherStrength::Strength128 => 128,
            CipherStrength::Strength192 => 192,
            CipherStrength::Strength256 => 256,
        }
    }

    pub fn key_len(&self) -> (r: usize)
        ensures
            r == self.spec_key_len(),
    {
        match self {
            CipherStrength::Strength128 => 16,
            CipherStrength::Strength192 => 24,
            CipherStrength::Strength256 => 32,
        }
    }

    /// The strength for a bit count, if it is one of 128, 192 and 256.
    pub fn from_bits(bits: u64) -> (r: Option<CipherStrength>)
        ensures
            r == CipherStrength::spec_from_bits(bits as int),
            r matches Some(s) ==> s.spec_bits() == bits,
    {
        if bits == 128 {
            Some(CipherStrength::Strength128)
        } else if bits == 192 {
            Some(CipherStrength::Strength192)
        } else if bits == 256 {
            Some(CipherStrength::Strength256)
        } else {
            None
        }
    }
}

} // verus!
