//! What holds of every sponge, whatever it is fed and however the input is cut.

use vstd::prelude::*;
use crate::bits::{lanes_to_bytes, lemma_xor_bytes_bytewise, xor_bytes};
use crate::keccak::{keccak_f, lemma_rounds_len};
use crate::padding::pad10star1;
use crate::sponge::{hash, lemma_absorb_concat, lemma_absorb_wf, SpongeModel};
use crate::variant::Variant;

verus! {

/// The sponge after the pieces of `pieces` are absorbed one after the other.
pub open spec fn absorb_all(m: SpongeModel, pieces: Seq<Seq<u8>>) -> SpongeModel
    decreases pieces.len(),
{
    if pieces.len() == 0 {
        m
    } else {
        absorb_all(m, pieces.drop_last()).absorb(pieces.last())
    }
}

/// The pieces of `pieces` joined into one sequence of bytes.
pub open spec fn joined(pieces: Seq<Seq<u8>>) -> Seq<u8>
    decreases pieces.len(),
{
    if pieces.len() == 0 {
        Seq::empty()
    } else {
        joined(pieces.drop_last()) + pieces.last()
    }
}

/// Absorbing nothing leaves a sponge as it is.
pub proof fn lemma_absorb_nothing(m: SpongeModel)
    requires
        m.wf(),
    ensures
        m.absorb(Seq::empty()) == m,
{
    assert(m.tail + Seq::<u8>::empty() =~= m.tail);
}

/// Absorbing input that leaves the block open only extends the tail: the state
/// stays untouched until a block is full.
pub proof fn lemma_absorb_within_block(m: SpongeModel, input: Seq<u8>)
    requires
        m.wf(),
        m.tail.len() + input.len() < m.variant.rate_bytes,
    ensures
        m.absorb(input).lanes == m.lanes,
        m.absorb(input).tail == m.tail + input,
{
}

/// Absorbing exactly what completes the block XORs the block into the state,
/// permutes the state, and resets the cursor to zero.
pub proof fn lemma_absorb_completes_block(m: SpongeModel, input: Seq<u8>)
    requires
        m.wf(),
        m.tail.len() + input.len() == m.variant.rate_bytes,
    ensures
        m.absorb(input).lanes == keccak_f(xor_bytes(m.lanes, m.tail + input)),
        m.absorb(input).cursor() == 0,
{
    let room = m.variant.rate_bytes - m.tail.len();
    assert(input.subrange(0, room) =~= input);
    let next = m.absorb_block(m.tail + input);
    assert(input.subrange(room, input.len() as int) =~= Seq::<u8>::empty());
    lemma_rounds_len(xor_bytes(m.lanes, m.tail + input), 24);
    lemma_absorb_nothing(next);
}

/// After any input the cursor is the number of bytes absorbed since the last
/// block boundary: old cursor and input length, modulo the rate.
pub proof fn lemma_cursor_after_absorb(m: SpongeModel, input: Seq<u8>)
    requires
        m.wf(),
    ensures
        m.absorb(input).cursor() as int == (m.cursor() as int + input.len() as int) % (
        m.variant.rate_bytes as int),
        m.absorb(input).cursor() < m.variant.rate_bytes,
    decreases input.len(),
{
    let rate = m.variant.rate_bytes as int;
    let total = m.tail.len() as int + input.len() as int;
    let room = rate - m.tail.len();
    if input.len() < room {
        vstd::arithmetic::div_mod::lemma_small_mod(total as nat, rate as nat);
    } else {
        let block = m.tail + input.subrange(0, room);
        let next = m.absorb_block(block);
        let rest = input.subrange(room, input.len() as int);
        lemma_rounds_len(xor_bytes(m.lanes, block), 24);
        lemma_cursor_after_absorb(next, rest);
        assert(total == rate + rest.len());
        vstd::arithmetic::div_mod::lemma_mod_add_multiples_vanish(rest.len() as int, rate);
    }
}

/// Chunk-invariance: a sponge that absorbs `a` and then `b` gives the digest of a
/// sponge that absorbs `a + b` at once.
pub proof fn lemma_two_pieces_digest_as_one(m: SpongeModel, a: Seq<u8>, b: Seq<u8>)
    requires
        m.wf(),
    ensures
        m.absorb(a).absorb(b) == m.absorb(a + b),
        m.absorb(a).absorb(b).digest() == m.absorb(a + b).digest(),
{
    lemma_absorb_concat(m, a, b);
}

/// Chunk-invariance for any number of pieces: absorbing them one after the other
/// is absorbing their concatenation.
pub proof fn lemma_any_chunking(m: SpongeModel, pieces: Seq<Seq<u8>>)
    requires
        m.wf(),
    ensures
        absorb_all(m, pieces) == m.absorb(joined(pieces)),
        absorb_all(m, pieces).wf(),
    decreases pieces.len(),
{
    if pieces.len() == 0 {
        lemma_absorb_nothing(m);
    } else {
        lemma_any_chunking(m, pieces.drop_last());
        lemma_absorb_concat(m, joined(pieces.drop_last()), pieces.last());
        lemma_absorb_wf(m, joined(pieces));
    }
}

/// Two fresh sponges of one variant that are fed the same message, each cut into
/// pieces in its own way, give the same digest: the hash of the message.
pub proof fn lemma_same_message_same_digest(
    variant: Variant,
    pieces1: Seq<Seq<u8>>,
    pieces2: Seq<Seq<u8>>,
)
    requires
        variant.wf(),
        joined(pieces1) == joined(pieces2),
    ensures
        absorb_all(SpongeModel::initial(variant), pieces1).digest() == hash(
            variant,
            joined(pieces1),
        ),
        absorb_all(SpongeModel::initial(variant), pieces1).digest() == absorb_all(
            SpongeModel::initial(variant),
            pieces2,
        ).digest(),
{
    lemma_any_chunking(SpongeModel::initial(variant), pieces1);
    lemma_any_chunking(SpongeModel::initial(variant), pieces2);
}

/// The padded last block can be applied in place. Where the tail has been XORed
/// into the leading bytes of the state, XORing the separator into the byte at the
/// cursor and 0x80 into the last byte of the rate gives the state that XORing the
/// whole padded block gives.
pub proof fn lemma_padding_in_place(m: SpongeModel)
    requires
        m.wf(),
    ensures
        ({
            let cursor = m.tail.len() as int;
            let last = m.variant.rate_bytes - 1;
            let with_tail = lanes_to_bytes(xor_bytes(m.lanes, m.tail));
            let with_separator = with_tail.update(
                cursor,
                with_tail[cursor] ^ m.variant.domain_separator,
            );
            let closed = with_separator.update(last, with_separator[last] ^ 0x80);
            lanes_to_bytes(
                xor_bytes(
                    m.lanes,
                    pad10star1(
                        m.variant.rate_bytes as nat,
                        m.variant.domain_separator,
                        m.tail,
                    ),
                ),
            ) == closed
        }),
{
    let separator = m.variant.domain_separator;
    let cursor = m.tail.len() as int;
    let last = m.variant.rate_bytes - 1;
    let block = pad10star1(m.variant.rate_bytes as nat, separator, m.tail);
    let before = lanes_to_bytes(m.lanes);
    let with_tail = lanes_to_bytes(xor_bytes(m.lanes, m.tail));
    let with_separator = with_tail.update(cursor, with_tail[cursor] ^ separator);
    let closed = with_separator.update(last, with_separator[last] ^ 0x80);
    let padded = lanes_to_bytes(xor_bytes(m.lanes, block));
    lemma_xor_bytes_bytewise(m.lanes, m.tail);
    lemma_xor_bytes_bytewise(m.lanes, block);
    assert forall|i: int| 0 <= i < 200 implies padded[i] == closed[i] by {
        let b = before[i];
        assert(b ^ (separator ^ 0u8) == b ^ separator) by (bit_vector);
        assert(b ^ (separator ^ 0x80u8) == (b ^ separator) ^ 0x80u8) by (bit_vector);
        assert(b ^ (0u8 ^ 0x80u8) == b ^ 0x80u8) by (bit_vector);
        assert(b ^ (0u8 ^ 0u8) == b) by (bit_vector);
    }
    assert(padded =~= closed);
}

/// The digest of every well-formed sponge is exactly as long as its variant says.
pub proof fn lemma_digest_length(m: SpongeModel)
    requires
        m.wf(),
    ensures
        m.digest().len() == m.variant.output_bytes,
{
    let block = pad10star1(m.variant.rate_bytes as nat, m.variant.domain_separator, m.tail);
    lemma_rounds_len(xor_bytes(m.lanes, block), 24);
}

/// The hash of every message is exactly as long as the variant says.
pub proof fn lemma_hash_length(variant: Variant, message: Seq<u8>)
    requires
        variant.wf(),
    ensures
        hash(variant, message).len() == variant.output_bytes,
{
    lemma_absorb_wf(SpongeModel::initial(variant), message);
    lemma_digest_length(SpongeModel::initial(variant).absorb(message));
}

} // verus!
