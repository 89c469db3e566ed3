//! The parameter sets of the four SHA-3 hash functions.

use vstd::prelude::*;

verus! {

/// The parameters that turn the sponge construction into one hash function.
#[derive(Clone, Copy, Debug, PartialEq, Eq, Structural)]
pub struct Variant {
    /// Bytes of the state that each block of input is XORed into.
    pub rate_bytes: usize,
    /// Length of the digest in bytes.
    pub output_bytes: usize,
    /// The byte that follows the message, ahead of the closing padding bit.
    pub domain_separator: u8,
}

impl Variant {
    /// The rate fits in the 200-byte state, the digest fits in one block of the
    /// rate, and the separator leaves the top bit to the closing padding bit.
    pub open spec fn wf(&self) -> bool {
        &&& 0 < self.rate_bytes <= 200
        &&& self.output_bytes <= self.rate_bytes
        &&& self.domain_separator < 0x80
    }

    /// The rate in bits.
    pub open spec fn rate_bits(&self) -> int {
        8 * self.rate_bytes
    }

    /// The capacity in bits: what is left of the 1600 bits beside the rate.
    pub open spec fn capacity_bits(&self) -> int {
        1600 - self.rate_bits()
    }

    /// The parameters of SHA3-224.
    pub open spec fn spec_sha3_224() -> Variant {
        Variant { rate_bytes: 144, output_bytes: 28, domain_separator: 0x06 }
    }

    /// The parameters of SHA3-256.
    pub open spec fn spec_sha3_256() -> Variant {
        Variant { rate_bytes: 136, output_bytes: 32, domain_separator: 0x06 }
    }

    /// The parameters of SHA3-384.
    pub open spec fn spec_sha3_384() -> Variant {
        Variant { rate_bytes: 104, output_bytes: 48, domain_separator: 0x06 }
    }

    /// The parameters of SHA3-512.
    pub open spec fn spec_sha3_512() -> Variant {
        Variant { rate_bytes: 72, output_bytes: 64, domain_separator: 0x06 }
    }

    /// The parameters of SHA3-224.
    #[verifier::when_used_as_spec(spec_sha3_224)]
    pub fn sha3_224() -> (v: Variant)
        ensures
            v == Self::spec_sha3_224(),
            v.wf(),
    {
        Variant { rate_bytes: 144, output_bytes: 28, domain_separator: 0x06 }
    }

    /// The parameters of SHA3-256.
    #[verifier::when_used_as_spec(spec_sha3_256)]
    pub fn sha3_256() -> (v: Variant)
        ensures
            v == Self::spec_sha3_256(),
            v.wf(),
    {
        Variant { rate_bytes: 136, output_bytes: 32, domain_separator: 0x06 }
    }

    /// The parameters of SHA3-384.
    #[verifier::when_used_as_spec(spec_sha3_384)]
    pub fn sha3_384() -> (v: Variant)
        ensures
            v == Self::spec_sha3_384(),
            v.wf(),
    {
        Variant { rate_bytes: 104, output_bytes: 48, domain_separator: 0x06 }
    }

    /// The parameters of SHA3-512.
    #[verifier::when_used_as_spec(spec_sha3_512)]
    pub fn sha3_512() -> (v: Variant)
        ensures
            v == Self::spec_sha3_512(),
            v.wf(),
    {
        Variant { rate_bytes: 72, output_bytes: 64, domain_separator: 0x06 }
    }
}

/// Rate and capacity of every well-formed variant add up to the 1600 bits of the
/// state, and the four SHA-3 variants have twice as many capacity bits as digest
/// bits.
pub proof fn lemma_rate_and_capacity(v: Variant)
    requires
        v.wf(),
    ensures
        v.rate_bits() + v.capacity_bits() == 1600,
        0 <= v.capacity_bits() < 1600,
        Variant::sha3_224().capacity_bits() == 448,
        Variant::sha3_256().capacity_bits() == 512,
        Variant::sha3_384().capacity_bits() == 768,
        Variant::sha3_512().capacity_bits() == 1024,
{
}

} // verus!
