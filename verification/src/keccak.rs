//! The Keccak-f[1600] permutation: its definition as a mathematical function on
//! 25 lanes, and the state that it is run on.
//!
//! In the mathematical model a state is a sequence of 25 lanes; lane `(x, y)` is
//! element `5 * y + x`.

use vstd::prelude::*;
use crate::bits::{
    lane_byte, lanes_to_bytes, lemma_lanes_bytes_lanes, lemma_xor_into_lane, lemma_xor_prefix_step,
    rotate_left, rotl64, xor_bytes, xor_prefix,
};

verus! {

/// Rotation offsets of the rho step; the offset of lane `(x, y)` is entry `[y][x]`.
pub const ROTATION_CONSTANTS: [[u32; 5]; 5] = [
    [0, 1, 62, 28, 27],
    [36, 44, 6, 55, 20],
    [3, 10, 43, 25, 39],
    [41, 45, 15, 21, 8],
    [18, 2, 61, 56, 14],
];

/// Round constants of the iota step, one per round.
pub const ROUND_CONSTANTS: [u64; 24] = [
    0x0000000000000001,
    0x0000000000008082,
    0x800000000000808A,
    0x8000000080008000,
    0x000000000000808B,
    0x0000000080000001,
    0x8000000080008081,
    0x8000000000008009,
    0x000000000000008A,
    0x0000000000000088,
    0x0000000080008009,
    0x000000008000000A,
    0x000000008000808B,
    0x800000000000008B,
    0x8000000000008089,
    0x8000000000008003,
    0x8000000000008002,
    0x8000000000000080,
    0x000000000000800A,
    0x800000008000000A,
    0x8000000080008081,
    0x8000000000008080,
    0x0000000080000001,
    0x8000000080008008,
];

/// The rotation offset of lane `(x, y)`.
pub open spec fn rotation_offset(x: int, y: int) -> u32 {
    ROTATION_CONSTANTS[y][x]
}

/// The round constant of round `i`, for `i` below 24.
pub open spec fn round_constant(i: int) -> u64 {
    ROUND_CONSTANTS[i]
}

/// Lane `(x, y)` of the state `a`.
pub open spec fn lane(a: Seq<u64>, x: int, y: int) -> u64 {
    a[5 * y + x]
}

/// The XOR of the five lanes of column `x`.
pub open spec fn column_parity(a: Seq<u64>, x: int) -> u64 {
    lane(a, x, 0) ^ lane(a, x, 1) ^ lane(a, x, 2) ^ lane(a, x, 3) ^ lane(a, x, 4)
}

/// What theta XORs into every lane of column `x`: the parity of the column to the
/// left and the parity of the column to the right rotated by one bit.
pub open spec fn theta_effect(a: Seq<u64>, x: int) -> u64 {
    column_parity(a, (x + 4) % 5) ^ rotl64(column_parity(a, (x + 1) % 5), 1)
}

/// The theta step.
pub open spec fn theta(a: Seq<u64>) -> Seq<u64> {
    Seq::new(25, |i: int| a[i] ^ theta_effect(a, i % 5))
}

/// The column of the lane that rho and pi move to position `(x, y)`; its row is `x`.
pub open spec fn rho_pi_source_x(x: int, y: int) -> int {
    (x + 3 * y) % 5
}

/// The rho and pi steps, fused: lane `(x, y)` of the result is the rotated lane
/// `(rho_pi_source_x(x, y), x)` of `a`.
pub open spec fn rho_pi(a: Seq<u64>) -> Seq<u64> {
    Seq::new(
        25,
        |i: int|
            {
                let sx = rho_pi_source_x(i % 5, i / 5);
                let sy = i % 5;
                rotl64(lane(a, sx, sy), rotation_offset(sx, sy))
            },
    )
}

/// The chi step: every lane is combined with the next two lanes of its row.
pub open spec fn chi(b: Seq<u64>) -> Seq<u64> {
    Seq::new(
        25,
        |i: int|
            {
                let x = i % 5;
                let y = i / 5;
                lane(b, x, y) ^ ((!lane(b, (x + 1) % 5, y)) & lane(b, (x + 2) % 5, y))
            },
    )
}

/// The iota step: the round constant is XORed into lane `(0, 0)`.
pub open spec fn iota(a: Seq<u64>, rc: u64) -> Seq<u64> {
    a.update(0, a[0] ^ rc)
}

/// One round with round constant `rc`: theta, rho and pi, chi, iota.
pub open spec fn round(a: Seq<u64>, rc: u64) -> Seq<u64> {
    iota(chi(rho_pi(theta(a))), rc)
}

/// The state after the first `n` rounds.
pub open spec fn rounds(a: Seq<u64>, n: nat) -> Seq<u64>
    decreases n,
{
    if n == 0 {
        a
    } else {
        round(rounds(a, (n - 1) as nat), round_constant(n - 1))
    }
}

/// Keccak-f[1600]: all 24 rounds.
pub open spec fn keccak_f(a: Seq<u64>) -> Seq<u64> {
    rounds(a, 24)
}

/// Every rotation offset is below the lane width.
pub proof fn lemma_rotation_offset_bound(x: int, y: int)
    requires
        0 <= x < 5,
        0 <= y < 5,
    ensures
        rotation_offset(x, y) < 64,
{
}

/// Rho and pi send lane `(x, y)`, rotated by its offset, to position
/// `(y, (2x + 3y) mod 5)`.
pub proof fn lemma_rho_pi_moves_lane(a: Seq<u64>, x: int, y: int)
    requires
        a.len() == 25,
        0 <= x < 5,
        0 <= y < 5,
    ensures
        lane(rho_pi(a), y, (2 * x + 3 * y) % 5) == rotl64(lane(a, x, y), rotation_offset(x, y)),
{
    let ty = (2 * x + 3 * y) % 5;
    let i = 5 * ty + y;
    assert(i % 5 == y && i / 5 == ty);
    assert(rho_pi_source_x(y, ty) == x);
}

/// In the byte view lane `(x, y)` occupies the eight bytes from `8 * (5 * y + x)`
/// on, least significant byte first.
pub proof fn lemma_byte_of_lane(a: Seq<u64>, x: int, y: int, k: int)
    requires
        a.len() == 25,
        0 <= x < 5,
        0 <= y < 5,
        0 <= k < 8,
    ensures
        lanes_to_bytes(a).len() == 200,
        lanes_to_bytes(a)[8 * (5 * y + x) + k] == lane_byte(lane(a, x, y), k),
{
}

/// Every step, and so the permutation, keeps the state at 25 lanes.
pub proof fn lemma_rounds_len(a: Seq<u64>, n: nat)
    requires
        a.len() == 25,
    ensures
        rounds(a, n).len() == 25,
    decreases n,
{
    if n > 0 {
        lemma_rounds_len(a, (n - 1) as nat);
    }
}

/// A 5 by 5 matrix of 64-bit lanes; lane `(x, y)` is stored at `[y][x]`.
#[derive(Debug)]
pub struct State(pub [[u64; 5]; 5]);

impl Clone for State {
    /// A copy with the same lanes.
    fn clone(&self) -> (s: State)
        ensures
            s == *self,
    {
        State(self.0)
    }
}

impl View for State {
    type V = Seq<u64>;

    /// The 25 lanes in row order: lane `(x, y)` is element `5 * y + x`.
    open spec fn view(&self) -> Seq<u64> {
        Seq::new(25, |i: int| self.0[i / 5][i % 5])
    }
}

impl State {
    /// The state as 200 bytes: lane `(x, y)` occupies bytes `8 * (5 * y + x)` and the
    /// seven that follow, least significant byte first.
    pub open spec fn bytes(&self) -> Seq<u8> {
        lanes_to_bytes(self@)
    }

    /// The all-zero state.
    pub fn zero() -> (s: State)
        ensures
            s@ == Seq::new(25, |i: int| 0u64),
    {
        State([[0; 5]; 5])
    }

    /// Reads byte `i` of the byte view.
    pub fn byte(&self, i: usize) -> (b: u8)
        requires
            i < 200,
        ensures
            b == self.bytes()[i as int],
    {
        let j = i / 8;
        let k = (i % 8) as u64;
        ((self.0[j / 5][j % 5] >> (8 * k)) & 0xff) as u8
    }

    /// XORs `b` into byte `i` of the byte view; every other byte stays as it was.
    pub fn xor_byte(&mut self, i: usize, b: u8)
        requires
            i < 200,
        ensures
            final(self).bytes() == old(self).bytes().update(
                i as int,
                old(self).bytes()[i as int] ^ b,
            ),
    {
        let j = i / 8;
        let k = (i % 8) as u64;
        let lane = self.0[j / 5][j % 5];
        let v = lane ^ ((b as u64) << (8 * k));
        self.0[j / 5][j % 5] = v;
        proof {
            let before = old(self).bytes();
            let after = self.bytes();
            assert(self@ == old(self)@.update(j as int, v));
            assert forall|n: int| 0 <= n < 200 implies after[n] == before.update(
                i as int,
                before[i as int] ^ b,
            )[n] by {
                if n / 8 == j {
                    lemma_xor_into_lane(lane, b, k as int, n % 8);
                }
            }
            assert(after =~= before.update(i as int, before[i as int] ^ b));
        }
    }

    /// XORs `block`, byte for byte, into the first bytes of the byte view.
    pub fn xor_block(&mut self, block: &[u8])
        requires
            block@.len() <= 200,
        ensures
            final(self)@ == xor_bytes(old(self)@, block@),
    {
        let ghost before = self.bytes();
        proof {
            assert(xor_prefix(before, block@, 0) =~= before);
        }
        let mut i: usize = 0;
        while i < block.len()
            invariant
                i <= block@.len() <= 200,
                before.len() == 200,
                self.bytes() == xor_prefix(before, block@, i as int),
            decreases block@.len() - i,
        {
            proof {
                lemma_xor_prefix_step(before, block@, i as int);
            }
            self.xor_byte(i, block[i]);
            i += 1;
        }
        proof {
            lemma_lanes_bytes_lanes(self@);
        }
    }

    /// Applies Keccak-f[1600]: the 24 rounds in order.
    pub fn keccakf(&mut self)
        ensures
            final(self)@ == keccak_f(old(self)@),
    {
        let mut i: usize = 0;
        while i < 24
            invariant
                i <= 24,
                self@ == rounds(old(self)@, i as nat),
            decreases 24 - i,
        {
            self.round(ROUND_CONSTANTS[i]);
            i += 1;
        }
    }

    /// Applies one round with round constant `rc`.
    pub fn round(&mut self, rc: u64)
        ensures
            final(self)@ == round(old(self)@, rc),
    {
        let ghost a0 = self@;

        // theta
        let mut c: [u64; 5] = [0; 5];
        let mut x: usize = 0;
        while x < 5
            invariant
                x <= 5,
                self@ == a0,
                forall|j: int| 0 <= j < x ==> c[j] == column_parity(a0, j),
            decreases 5 - x,
        {
            c[x] = self.0[0][x] ^ self.0[1][x] ^ self.0[2][x] ^ self.0[3][x] ^ self.0[4][x];
            x += 1;
        }
        let mut d: [u64; 5] = [0; 5];
        x = 0;
        while x < 5
            invariant
                x <= 5,
                self@ == a0,
                forall|j: int| 0 <= j < 5 ==> c[j] == column_parity(a0, j),
                forall|j: int| 0 <= j < x ==> d[j] == theta_effect(a0, j),
            decreases 5 - x,
        {
            d[x] = c[(x + 4) % 5] ^ rotate_left(c[(x + 1) % 5], 1);
            x += 1;
        }
        let mut i: usize = 0;
        while i < 25
            invariant
                i <= 25,
                forall|j: int| 0 <= j < 5 ==> d[j] == theta_effect(a0, j),
                forall|j: int| 0 <= j < i ==> self@[j] == theta(a0)[j],
                forall|j: int| i <= j < 25 ==> self@[j] == a0[j],
            decreases 25 - i,
        {
            let v = self.0[i / 5][i % 5] ^ d[i % 5];
            self.0[i / 5][i % 5] = v;
            i += 1;
        }
        assert(self@ =~= theta(a0));
        let ghost a1 = self@;

        // rho and pi
        let mut b: [[u64; 5]; 5] = [[0; 5]; 5];
        i = 0;
        while i < 25
            invariant
                i <= 25,
                self@ == a1,
                forall|j: int| 0 <= j < i ==> b[j / 5][j % 5] == rho_pi(a1)[j],
            decreases 25 - i,
        {
            let sy = i % 5;
            let sx = (i % 5 + 3 * (i / 5)) % 5;
            let v = rotate_left(self.0[sy][sx], ROTATION_CONSTANTS[sy][sx]);
            b[i / 5][i % 5] = v;
            i += 1;
        }
        let ghost a2 = rho_pi(a1);

        // chi
        i = 0;
        while i < 25
            invariant
                i <= 25,
                a2.len() == 25,
                forall|j: int| 0 <= j < 25 ==> b[j / 5][j % 5] == a2[j],
                forall|j: int| 0 <= j < i ==> self@[j] == chi(a2)[j],
            decreases 25 - i,
        {
            let x = i % 5;
            let y = i / 5;
            let v = b[y][x] ^ ((!b[y][(x + 1) % 5]) & b[y][(x + 2) % 5]);
            self.0[y][x] = v;
            i += 1;
        }
        assert(self@ =~= chi(a2));

        // iota
        let v = self.0[0][0] ^ rc;
        self.0[0][0] = v;
        assert(self@ =~= round(a0, rc));
    }
}


} // verus!
