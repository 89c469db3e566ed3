//! The sponge construction: absorbing a message block by block and squeezing the
//! digest out of the state.

use vstd::prelude::*;
use crate::bits::{lanes_to_bytes, xor_bytes};
use crate::keccak::{keccak_f, lemma_rounds_len, State};
use crate::padding::{pad10star1, PadOneZeroStarOne, Padding};
use crate::variant::Variant;

verus! {

/// What a sponge is, mathematically: its parameters, the lanes of its state, and
/// the bytes taken in since the last full block.
pub struct SpongeModel {
    pub variant: Variant,
    pub lanes: Seq<u64>,
    pub tail: Seq<u8>,
}

impl SpongeModel {
    /// The parameters are well formed, the state has its 25 lanes, and the tail is
    /// shorter than a block.
    pub open spec fn wf(self) -> bool {
        &&& self.variant.wf()
        &&& self.lanes.len() == 25
        &&& self.tail.len() < self.variant.rate_bytes
    }

    /// The sponge before any input: a zero state and an empty tail.
    pub open spec fn initial(variant: Variant) -> SpongeModel {
        SpongeModel { variant, lanes: Seq::new(25, |i: int| 0u64), tail: Seq::empty() }
    }

    /// Bytes taken in since the last full block.
    pub open spec fn cursor(self) -> nat {
        self.tail.len()
    }

    /// The sponge after one full block: the block is XORed into the state, the
    /// state is permuted, and the tail is empty again.
    pub open spec fn absorb_block(self, block: Seq<u8>) -> SpongeModel {
        SpongeModel {
            variant: self.variant,
            lanes: keccak_f(xor_bytes(self.lanes, block)),
            tail: Seq::empty(),
        }
    }

    /// The sponge after `input`: while tail and input together fill a block, the
    /// block is absorbed; what is left becomes the tail.
    pub open spec fn absorb(self, input: Seq<u8>) -> SpongeModel
        decreases input.len(),
    {
        let room = self.variant.rate_bytes - self.tail.len();
        if room <= 0 {
            self
        } else if input.len() < room {
            SpongeModel { variant: self.variant, lanes: self.lanes, tail: self.tail + input }
        } else {
            self.absorb_block(self.tail + input.subrange(0, room)).absorb(
                input.subrange(room, input.len() as int),
            )
        }
    }

    /// The digest, given the padded last block: the block is XORed into the state,
    /// the state is permuted, and the first `output_bytes` bytes of its byte view
    /// are read.
    pub open spec fn squeeze(self, last_block: Seq<u8>) -> Seq<u8> {
        lanes_to_bytes(keccak_f(xor_bytes(self.lanes, last_block))).subrange(
            0,
            self.variant.output_bytes as int,
        )
    }

    /// The digest: the tail is padded by the pad10*1 rule and squeezed.
    pub open spec fn digest(self) -> Seq<u8> {
        self.squeeze(
            pad10star1(self.variant.rate_bytes as nat, self.variant.domain_separator, self.tail),
        )
    }
}

/// The hash of `message` under `variant`: the digest of a fresh sponge that has
/// absorbed the message.
pub open spec fn hash(variant: Variant, message: Seq<u8>) -> Seq<u8> {
    SpongeModel::initial(variant).absorb(message).digest()
}

/// Absorbing keeps a sponge well formed and leaves its parameters alone.
pub proof fn lemma_absorb_wf(m: SpongeModel, input: Seq<u8>)
    requires
        m.wf(),
    ensures
        m.absorb(input).wf(),
        m.absorb(input).variant == m.variant,
    decreases input.len(),
{
    let room = m.variant.rate_bytes - m.tail.len();
    if input.len() >= room {
        let next = m.absorb_block(m.tail + input.subrange(0, room));
        lemma_rounds_len(xor_bytes(m.lanes, m.tail + input.subrange(0, room)), 24);
        lemma_absorb_wf(next, input.subrange(room, input.len() as int));
    }
}

/// Absorbing `a` and then `b` leaves the sponge as absorbing `a + b` at once does:
/// how the input is cut into pieces does not matter.
pub proof fn lemma_absorb_concat(m: SpongeModel, a: Seq<u8>, b: Seq<u8>)
    requires
        m.wf(),
    ensures
        m.absorb(a).absorb(b) == m.absorb(a + b),
    decreases a.len(),
{
    let room = m.variant.rate_bytes - m.tail.len();
    let ab = a + b;
    if a.len() < room {
        let ma = m.absorb(a);
        if ab.len() < room {
            assert(ma.tail + b =~= m.tail + ab);
        } else {
            let rest = room - a.len();
            assert(ma.tail + b.subrange(0, rest) =~= m.tail + ab.subrange(0, room));
            assert(b.subrange(rest, b.len() as int) =~= ab.subrange(room, ab.len() as int));
        }
    } else {
        let next = m.absorb_block(m.tail + a.subrange(0, room));
        let a_rest = a.subrange(room, a.len() as int);
        assert(ab.subrange(0, room) =~= a.subrange(0, room));
        assert(ab.subrange(room, ab.len() as int) =~= a_rest + b);
        lemma_rounds_len(xor_bytes(m.lanes, m.tail + a.subrange(0, room)), 24);
        lemma_absorb_concat(next, a_rest, b);
    }
}

/// Absorbing a single byte either extends the tail or, where the byte fills the
/// block, absorbs the block.
pub proof fn lemma_absorb_byte(m: SpongeModel, b: u8)
    requires
        m.wf(),
    ensures
        m.absorb(seq![b]) == if m.tail.len() + 1 < m.variant.rate_bytes {
            SpongeModel { variant: m.variant, lanes: m.lanes, tail: m.tail.push(b) }
        } else {
            m.absorb_block(m.tail.push(b))
        },
{
    let one = seq![b];
    if m.tail.len() + 1 < m.variant.rate_bytes {
        assert(m.tail + one =~= m.tail.push(b));
    } else {
        assert(m.tail + one.subrange(0, 1) =~= m.tail.push(b));
        let next = m.absorb_block(m.tail.push(b));
        let rest = one.subrange(1, 1);
        assert(next.tail + rest =~= next.tail);
        assert(next.absorb(rest) == next);
    }
}

/// A sponge: it takes a message in, in pieces of any size, and gives the digest out
/// once.
pub trait Sponge: View<V = SpongeModel> + Sized {
    /// The rule that pads the last block.
    type Pad: Padding;

    /// Takes `input` in.
    fn absorb(&mut self, input: &[u8])
        requires
            old(self)@.wf(),
        ensures
            final(self)@ == old(self)@.absorb(input@),
            final(self)@.wf(),
            final(self)@.variant == old(self)@.variant,
    ;

    /// Pads what is left, absorbs it, and returns the digest.
    fn finalize_and_squeeze(self) -> (digest: Vec<u8>)
        requires
            self@.wf(),
        ensures
            digest@ == self@.squeeze(
                Self::Pad::padded(
                    self@.variant.rate_bytes as nat,
                    self@.variant.domain_separator,
                    self@.tail,
                ),
            ),
            digest@.len() == self@.variant.output_bytes,
    ;
}

/// A sponge over Keccak-f[1600] with the pad10*1 rule, for any of the hash
/// variants.
///
/// The bytes since the last full block wait in `tail` until they fill a block; the
/// cursor is their number.
#[derive(Debug)]
pub struct SpongeContext {
    state: State,
    tail: Vec<u8>,
    variant: Variant,
}

impl Clone for SpongeContext {
    /// A sponge in the same condition: fed alike, the two give the same digest.
    fn clone(&self) -> (s: SpongeContext)
        ensures
            s@ == self@,
    {
        let s = SpongeContext {
            state: self.state.clone(),
            tail: self.tail.clone(),
            variant: self.variant,
        };
        proof {
            assert(s.tail@ =~= self.tail@);
        }
        s
    }
}

impl View for SpongeContext {
    type V = SpongeModel;

    closed spec fn view(&self) -> SpongeModel {
        SpongeModel { variant: self.variant, lanes: self.state@, tail: self.tail@ }
    }
}

impl SpongeContext {
    fn new(variant: Variant) -> (s: SpongeContext)
        requires
            variant.wf(),
        ensures
            s@ == SpongeModel::initial(variant),
            s@.wf(),
    {
        SpongeContext { state: State::zero(), tail: Vec::new(), variant }
    }

    /// A fresh sponge for SHA3-224.
    pub fn new_sha3_224() -> (s: SpongeContext)
        ensures
            s@ == SpongeModel::initial(Variant::sha3_224()),
            s@.wf(),
    {
        Self::new(Variant::sha3_224())
    }

    /// A fresh sponge for SHA3-256.
    pub fn new_sha3_256() -> (s: SpongeContext)
        ensures
            s@ == SpongeModel::initial(Variant::sha3_256()),
            s@.wf(),
    {
        Self::new(Variant::sha3_256())
    }

    /// A fresh sponge for SHA3-384.
    pub fn new_sha3_384() -> (s: SpongeContext)
        ensures
            s@ == SpongeModel::initial(Variant::sha3_384()),
            s@.wf(),
    {
        Self::new(Variant::sha3_384())
    }

    /// A fresh sponge for SHA3-512.
    pub fn new_sha3_512() -> (s: SpongeContext)
        ensures
            s@ == SpongeModel::initial(Variant::sha3_512()),
            s@.wf(),
    {
        Self::new(Variant::sha3_512())
    }

    /// The parameters of this sponge.
    pub fn variant(&self) -> (v: Variant)
        ensures
            v == self@.variant,
    {
        self.variant
    }

    /// Bytes taken in since the last full block.
    pub fn cursor(&self) -> (c: usize)
        ensures
            c == self@.cursor(),
    {
        self.tail.len()
    }
}

impl Sponge for SpongeContext {
    type Pad = PadOneZeroStarOne;

    fn absorb(&mut self, input: &[u8]) {
        let rate = self.variant.rate_bytes;
        let mut i: usize = 0;
        proof {
            assert(input@.subrange(0, 0) =~= Seq::<u8>::empty());
            assert(self@.tail + Seq::<u8>::empty() =~= self@.tail);
        }
        while i < input.len()
            invariant
                i <= input@.len(),
                old(self)@.wf(),
                self@.wf(),
                rate == self.variant.rate_bytes,
                self@ == old(self)@.absorb(input@.subrange(0, i as int)),
                self@.variant == old(self)@.variant,
            decreases input@.len() - i,
        {
            proof {
                let taken = input@.subrange(0, i as int);
                lemma_absorb_byte(self@, input@[i as int]);
                lemma_absorb_concat(old(self)@, taken, seq![input@[i as int]]);
                assert(taken + seq![input@[i as int]] =~= input@.subrange(0, i + 1));
                lemma_rounds_len(xor_bytes(self@.lanes, self@.tail.push(input@[i as int])), 24);
            }
            self.tail.push(input[i]);
            if self.tail.len() == rate {
                self.state.xor_block(self.tail.as_slice());
                self.state.keccakf();
                self.tail.clear();
            }
            i += 1;
        }
        proof {
            assert(input@.subrange(0, input@.len() as int) =~= input@);
        }
    }

    fn finalize_and_squeeze(self) -> (digest: Vec<u8>)
        ensures
            digest@ == self@.digest(),
    {
        let mut state = self.state;
        let rate = self.variant.rate_bytes;
        let n = self.variant.output_bytes;
        proof {
            PadOneZeroStarOne::lemma_padded_shape(
                rate as nat,
                self.variant.domain_separator,
                self.tail@,
            );
        }
        let block = PadOneZeroStarOne::pad(rate, self.variant.domain_separator, self.tail.as_slice());
        state.xor_block(block.as_slice());
        state.keccakf();
        proof {
            lemma_rounds_len(xor_bytes(self@.lanes, block@), 24);
        }
        let mut digest: Vec<u8> = Vec::with_capacity(n);
        let mut i: usize = 0;
        while i < n
            invariant
                i <= n <= 200,
                state@.len() == 25,
                digest@ == state.bytes().subrange(0, i as int),
            decreases n - i,
        {
            digest.push(state.byte(i));
            proof {
                assert(digest@ =~= state.bytes().subrange(0, i + 1));
            }
            i += 1;
        }
        digest
    }
}

} // verus!
