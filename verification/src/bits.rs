//! Bit-level facts about 64-bit lanes and their bytes.

use vstd::prelude::*;

verus! {

/// The lane `x` rotated left by `n` bit positions, for `n` below 64.
pub open spec fn rotl64(x: u64, n: u32) -> u64 {
    if n == 0 {
        x
    } else {
        (x << n) | (x >> (64 - n) as u32)
    }
}

/// Rotates a lane left by `n` bit positions.
pub fn rotate_left(x: u64, n: u32) -> (r: u64)
    requires
        n < 64,
    ensures
        r == rotl64(x, n),
{
    if n == 0 {
        x
    } else {
        (x << n) | (x >> (64 - n))
    }
}

/// Byte `k` of a lane, counting from the least significant byte.
pub open spec fn lane_byte(lane: u64, k: int) -> u8 {
    ((lane >> ((8 * k) as u64)) & 0xff) as u8
}

/// The lane whose eight bytes, least significant first, are `b[at..at + 8]`.
pub open spec fn lane_of_bytes(b: Seq<u8>, at: int) -> u64 {
    (b[at] as u64) | ((b[at + 1] as u64) << 8) | ((b[at + 2] as u64) << 16) | ((b[at + 3] as u64)
        << 24) | ((b[at + 4] as u64) << 32) | ((b[at + 5] as u64) << 40) | ((b[at + 6] as u64)
        << 48) | ((b[at + 7] as u64) << 56)
}

/// The byte view of a sequence of lanes: lane `j` occupies bytes `8j .. 8j + 8`,
/// least significant byte first.
pub open spec fn lanes_to_bytes(a: Seq<u64>) -> Seq<u8> {
    Seq::new(8 * a.len(), |i: int| lane_byte(a[i / 8], i % 8))
}

/// The lanes whose byte view is `b`, for `b` of a length divisible by eight.
pub open spec fn bytes_to_lanes(b: Seq<u8>) -> Seq<u64> {
    Seq::new(b.len() / 8, |j: int| lane_of_bytes(b, 8 * j))
}

/// The bytes `bytes` after the first `n` bytes of `block` are XORed into its first
/// `n` bytes.
pub open spec fn xor_prefix(bytes: Seq<u8>, block: Seq<u8>, n: int) -> Seq<u8> {
    Seq::new(
        bytes.len(),
        |i: int|
            if i < n {
                bytes[i] ^ block[i]
            } else {
                bytes[i]
            },
    )
}

/// The lanes after `block` is XORed, byte for byte, into the first bytes of the
/// byte view of `lanes`.
pub open spec fn xor_bytes(lanes: Seq<u64>, block: Seq<u8>) -> Seq<u64> {
    bytes_to_lanes(xor_prefix(lanes_to_bytes(lanes), block, block.len() as int))
}

/// XORing one more byte of the block extends the XORed prefix by one.
pub proof fn lemma_xor_prefix_step(bytes: Seq<u8>, block: Seq<u8>, n: int)
    requires
        0 <= n < block.len() <= bytes.len(),
    ensures
        xor_prefix(bytes, block, n + 1) == xor_prefix(bytes, block, n).update(
            n,
            xor_prefix(bytes, block, n)[n] ^ block[n],
        ),
{
    assert(xor_prefix(bytes, block, n + 1) =~= xor_prefix(bytes, block, n).update(
        n,
        xor_prefix(bytes, block, n)[n] ^ block[n],
    ));
}

proof fn lemma_lane_bytes_roundtrip(lane: u64)
    by (bit_vector)
    ensures
        lane == (((lane >> 0) & 0xff) as u8 as u64) | ((((lane >> 8) & 0xff) as u8 as u64) << 8) | ((((lane >> 16) & 0xff) as u8 as u64) << 16)
            | ((((lane >> 24) & 0xff) as u8 as u64) << 24) | ((((lane >> 32) & 0xff) as u8 as u64) << 32)
            | ((((lane >> 40) & 0xff) as u8 as u64) << 40) | ((((lane >> 48) & 0xff) as u8 as u64) << 48)
            | ((((lane >> 56) & 0xff) as u8 as u64) << 56),
{
}

proof fn lemma_bytes_lane_roundtrip(b0: u8, b1: u8, b2: u8, b3: u8, b4: u8, b5: u8, b6: u8, b7: u8)
    by (bit_vector)
    ensures
        ({
            let lane = (b0 as u64) | ((b1 as u64) << 8) | ((b2 as u64) << 16) | ((b3 as u64) << 24) | ((b4 as u64) << 32) | ((b5 as u64) << 40) | ((b6 as u64) << 48) | ((b7 as u64) << 56);
            &&& ((lane >> 0) & 0xff) as u8 == b0
            &&& ((lane >> 8) & 0xff) as u8 == b1
            &&& ((lane >> 16) & 0xff) as u8 == b2
            &&& ((lane >> 24) & 0xff) as u8 == b3
            &&& ((lane >> 32) & 0xff) as u8 == b4
            &&& ((lane >> 40) & 0xff) as u8 == b5
            &&& ((lane >> 48) & 0xff) as u8 == b6
            &&& ((lane >> 56) & 0xff) as u8 == b7
        }),
{
}

proof fn lemma_xor_shifted_byte(lane: u64, b: u8, s: u64, t: u64)
    by (bit_vector)
    requires
        s == 0 || s == 8 || s == 16 || s == 24 || s == 32 || s == 40 || s == 48 || s == 56,
        t == 0 || t == 8 || t == 16 || t == 24 || t == 32 || t == 40 || t == 48 || t == 56,
    ensures
        (((lane ^ ((b as u64) << s)) >> t) & 0xff) as u8 == if s == t {
            (((lane >> t) & 0xff) as u8) ^ b
        } else {
            ((lane >> t) & 0xff) as u8
        },
{
}

/// Converting lanes to bytes and back gives the lanes again.
pub proof fn lemma_lanes_bytes_lanes(a: Seq<u64>)
    ensures
        bytes_to_lanes(lanes_to_bytes(a)) == a,
{
    let b = lanes_to_bytes(a);
    assert forall|j: int| 0 <= j < a.len() implies bytes_to_lanes(b)[j] == a[j] by {
        lemma_lane_bytes_roundtrip(a[j]);
        assert(b[8 * j] == lane_byte(a[j], 0));
        assert(b[8 * j + 1] == lane_byte(a[j], 1));
        assert(b[8 * j + 2] == lane_byte(a[j], 2));
        assert(b[8 * j + 3] == lane_byte(a[j], 3));
        assert(b[8 * j + 4] == lane_byte(a[j], 4));
        assert(b[8 * j + 5] == lane_byte(a[j], 5));
        assert(b[8 * j + 6] == lane_byte(a[j], 6));
        assert(b[8 * j + 7] == lane_byte(a[j], 7));
    }
    assert(bytes_to_lanes(b) =~= a);
}

/// Converting bytes to lanes and back gives the bytes again.
pub proof fn lemma_bytes_lanes_bytes(b: Seq<u8>)
    requires
        b.len() % 8 == 0,
    ensures
        lanes_to_bytes(bytes_to_lanes(b)) == b,
{
    let a = bytes_to_lanes(b);
    assert forall|i: int| 0 <= i < b.len() implies lanes_to_bytes(a)[i] == b[i] by {
        let j = i / 8;
        lemma_bytes_lane_roundtrip(
            b[8 * j],
            b[8 * j + 1],
            b[8 * j + 2],
            b[8 * j + 3],
            b[8 * j + 4],
            b[8 * j + 5],
            b[8 * j + 6],
            b[8 * j + 7],
        );
        assert(a[j] == lane_of_bytes(b, 8 * j));
    }
    assert(lanes_to_bytes(a) =~= b);
}

/// In the byte view, `xor_bytes` XORs the block into the leading bytes and leaves
/// every byte behind the block as it was.
pub proof fn lemma_xor_bytes_bytewise(lanes: Seq<u64>, block: Seq<u8>)
    ensures
        xor_bytes(lanes, block).len() == lanes.len(),
        lanes_to_bytes(xor_bytes(lanes, block)) == xor_prefix(
            lanes_to_bytes(lanes),
            block,
            block.len() as int,
        ),
{
    let bytes = xor_prefix(lanes_to_bytes(lanes), block, block.len() as int);
    assert(bytes.len() == 8 * lanes.len());
    assert(bytes_to_lanes(bytes).len() == lanes.len());
    lemma_bytes_lanes_bytes(bytes);
}

/// XORing a byte, shifted to byte position `k`, into a lane XORs it into byte `k`
/// of the lane and leaves the other seven bytes as they were.
pub proof fn lemma_xor_into_lane(lane: u64, b: u8, k: int, j: int)
    requires
        0 <= k < 8,
        0 <= j < 8,
    ensures
        lane_byte(lane ^ ((b as u64) << ((8 * k) as u64)), j) == if j == k {
            lane_byte(lane, j) ^ b
        } else {
            lane_byte(lane, j)
        },
{
    lemma_xor_shifted_byte(lane, b, (8 * k) as u64, (8 * j) as u64);
}

} // verus!
