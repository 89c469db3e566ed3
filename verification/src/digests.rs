//! The named hash functions.

use vstd::prelude::*;
use crate::padding::PadOneZeroStarOne;
use crate::sponge::{Sponge, SpongeContext, SpongeModel};
use crate::variant::Variant;

verus! {

/// SHA3-256: a sponge whose parameters are fixed by its type.
#[allow(non_camel_case_types)]
#[derive(Debug)]
pub struct Sha3_256(SpongeContext);

impl Clone for Sha3_256 {
    /// A sponge in the same condition: fed alike, the two give the same digest.
    fn clone(&self) -> (s: Sha3_256)
        ensures
            s@ == self@,
    {
        Sha3_256(self.0.clone())
    }
}

impl View for Sha3_256 {
    type V = SpongeModel;

    closed spec fn view(&self) -> SpongeModel {
        self.0@
    }
}

impl Default for Sha3_256 {
    /// A fresh SHA3-256 sponge.
    fn default() -> (s: Sha3_256)
        ensures
            s@ == SpongeModel::initial(Variant::sha3_256()),
            s@.wf(),
    {
        Sha3_256(SpongeContext::new_sha3_256())
    }
}

impl Sponge for Sha3_256 {
    type Pad = PadOneZeroStarOne;

    fn absorb(&mut self, input: &[u8]) {
        self.0.absorb(input)
    }

    fn finalize_and_squeeze(self) -> (digest: Vec<u8>)
        ensures
            digest@ == self@.digest(),
    {
        self.0.finalize_and_squeeze()
    }
}

} // verus!
