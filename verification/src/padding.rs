//! The padding that closes the last block of a message.

use vstd::prelude::*;

verus! {

/// The pad10*1 rule at byte level, with the domain separator in front: the padded
/// block holds the tail, then the separator, then zero bytes, and 0x80 XORed into
/// its last byte. Where the tail leaves a single byte, separator and 0x80 share it.
pub open spec fn pad10star1(rate_bytes: nat, separator: u8, tail: Seq<u8>) -> Seq<u8> {
    Seq::new(
        rate_bytes,
        |i: int|
            if i < tail.len() {
                tail[i]
            } else {
                (if i == tail.len() {
                    separator
                } else {
                    0u8
                }) ^ (if i == rate_bytes - 1 {
                    0x80u8
                } else {
                    0u8
                })
            },
    )
}

/// A padding rule: how the unconsumed tail of a message is made into a full block.
pub trait Padding {
    /// The padded block, as a function of rate, separator and tail.
    spec fn padded(rate_bytes: nat, separator: u8, tail: Seq<u8>) -> Seq<u8>;

    /// Every padded block is as long as the rate and begins with the tail.
    proof fn lemma_padded_shape(rate_bytes: nat, separator: u8, tail: Seq<u8>)
        requires
            tail.len() < rate_bytes,
        ensures
            Self::padded(rate_bytes, separator, tail).len() == rate_bytes,
            Self::padded(rate_bytes, separator, tail).subrange(0, tail.len() as int) == tail,
    ;

    /// Pads the tail `m`, shorter than `x` bytes, to one block of `x` bytes.
    fn pad(x: usize, separator: u8, m: &[u8]) -> (p: Vec<u8>)
        requires
            m@.len() < x,
        ensures
            p@ == Self::padded(x as nat, separator, m@),
    ;
}

/// The pad10*1 rule.
pub struct PadOneZeroStarOne {}

impl Padding for PadOneZeroStarOne {
    open spec fn padded(rate_bytes: nat, separator: u8, tail: Seq<u8>) -> Seq<u8> {
        pad10star1(rate_bytes, separator, tail)
    }

    proof fn lemma_padded_shape(rate_bytes: nat, separator: u8, tail: Seq<u8>) {
        assert(pad10star1(rate_bytes, separator, tail).subrange(0, tail.len() as int) =~= tail);
    }

    fn pad(x: usize, separator: u8, m: &[u8]) -> (p: Vec<u8>) {
        let l: usize = m.len();
        let mut p: Vec<u8> = Vec::with_capacity(x);
        let mut i: usize = 0;
        while i < x
            invariant
                i <= x,
                l == m@.len(),
                l < x,
                p@.len() == i,
                forall|j: int| 0 <= j < i ==> p@[j] == if j < l { m@[j] } else { 0u8 },
            decreases x - i,
        {
            if i < l {
                p.push(m[i]);
            } else {
                p.push(0x00);
            }
            i += 1;
        }
        let at_tail: u8 = p[l] ^ separator;
        p.set(l, at_tail);
        let at_end: u8 = p[x - 1] ^ 0x80;
        p.set(x - 1, at_end);
        proof {
            assert(0u8 ^ separator == separator) by (bit_vector);
            assert(separator ^ 0u8 == separator) by (bit_vector);
            assert(0u8 ^ 0x80u8 == 0x80u8) by (bit_vector);
            assert(0u8 ^ 0u8 == 0u8) by (bit_vector);
            assert(p@ =~= pad10star1(x as nat, separator, m@));
        }
        p
    }
}

/// A separator whose top bit is clear is never cancelled by the closing bit: where
/// the two share the last byte of the block, that byte is their OR.
pub proof fn lemma_separator_joins_closing_bit(rate_bytes: nat, separator: u8, tail: Seq<u8>)
    requires
        separator < 0x80,
        tail.len() + 1 == rate_bytes,
    ensures
        pad10star1(rate_bytes, separator, tail)[rate_bytes - 1] == separator | 0x80,
{
    assert(separator < 0x80 ==> separator ^ 0x80u8 == separator | 0x80u8) by (bit_vector);
}

/// Where the tail leaves two bytes or more, the separator stands right behind the
/// tail, 0x80 closes the block, and every byte between them is zero.
pub proof fn lemma_padding_layout(rate_bytes: nat, separator: u8, tail: Seq<u8>)
    requires
        tail.len() + 1 < rate_bytes,
    ensures
        pad10star1(rate_bytes, separator, tail)[tail.len() as int] == separator,
        pad10star1(rate_bytes, separator, tail)[rate_bytes - 1] == 0x80,
        forall|i: int|
            tail.len() < i < rate_bytes - 1 ==> pad10star1(rate_bytes, separator, tail)[i] == 0,
{
    assert(0u8 ^ 0x80u8 == 0x80u8) by (bit_vector);
    assert(separator ^ 0u8 == separator) by (bit_vector);
    assert(0u8 ^ 0u8 == 0u8) by (bit_vector);
}

} // verus!
