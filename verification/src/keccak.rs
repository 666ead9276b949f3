//! The primitive hash layer: a Keccak-based sponge usable as a digest and,
//! through counter-based expansion, as a deterministic pseudorandom stream
//! for lattice sampling. Every component of the pipeline hashes through this
//! module, so the guest program and the on-chain verifier agree bit for bit.

use vstd::prelude::*;
use vstd::slice::SliceAdditionalExecFns;

verus! {

/// Number of bytes absorbed per permutation call.
pub const KECCAK_RATE: usize = 136;

/// Round constant of the permutation, one per round.
pub open spec fn spec_round_constant(i: int) -> u64 {
    if i == 0 {
        0x0000000000000001
    } else if i == 1 {
        0x0000000000008082
    } else if i == 2 {
        0x800000000000808a
    } else if i == 3 {
        0x8000000080008000
    } else if i == 4 {
        0x000000000000808b
    } else if i == 5 {
        0x0000000080000001
    } else if i == 6 {
        0x8000000080008081
    } else if i == 7 {
        0x8000000000008009
    } else if i == 8 {
        0x000000000000008a
    } else if i == 9 {
        0x0000000000000088
    } else if i == 10 {
        0x0000000080008009
    } else if i == 11 {
        0x000000008000000a
    } else if i == 12 {
        0x000000008000808b
    } else if i == 13 {
        0x800000000000008b
    } else if i == 14 {
        0x8000000000008089
    } else if i == 15 {
        0x8000000000008003
    } else if i == 16 {
        0x8000000000008002
    } else if i == 17 {
        0x8000000000000080
    } else if i == 18 {
        0x000000000000800a
    } else if i == 19 {
        0x800000008000000a
    } else if i == 20 {
        0x8000000080008081
    } else if i == 21 {
        0x8000000000008080
    } else if i == 22 {
        0x0000000080000001
    } else {
        0x8000000080008008
    }
}

fn round_constant(i: usize) -> (r: u64)
    requires
        i < 24,
    ensures
        r == spec_round_constant(i as int),
{
    if i == 0 {
        0x0000000000000001
    } else if i == 1 {
        0x0000000000008082
    } else if i == 2 {
        0x800000000000808a
    } else if i == 3 {
        0x8000000080008000
    } else if i == 4 {
        0x000000000000808b
    } else if i == 5 {
        0x0000000080000001
    } else if i == 6 {
        0x8000000080008081
    } else if i == 7 {
        0x8000000000008009
    } else if i == 8 {
        0x000000000000008a
    } else if i == 9 {
        0x0000000000000088
    } else if i == 10 {
        0x0000000080008009
    } else if i == 11 {
        0x000000008000000a
    } else if i == 12 {
        0x000000008000808b
    } else if i == 13 {
        0x800000000000008b
    } else if i == 14 {
        0x8000000000008089
    } else if i == 15 {
        0x8000000000008003
    } else if i == 16 {
        0x8000000000008002
    } else if i == 17 {
        0x8000000000000080
    } else if i == 18 {
        0x000000000000800a
    } else if i == 19 {
        0x800000008000000a
    } else if i == 20 {
        0x8000000080008081
    } else if i == 21 {
        0x8000000000008080
    } else if i == 22 {
        0x0000000080000001
    } else {
        0x8000000080008008
    }
}

/// Source lane of each destination lane under the rho-pi reordering.
pub open spec fn spec_rho_pi_src(i: int) -> int {
    if i == 0 {
        0
    } else if i == 1 {
        6
    } else if i == 2 {
        12
    } else if i == 3 {
        18
    } else if i == 4 {
        24
    } else if i == 5 {
        3
    } else if i == 6 {
        9
    } else if i == 7 {
        10
    } else if i == 8 {
        16
    } else if i == 9 {
        22
    } else if i == 10 {
        1
    } else if i == 11 {
        7
    } else if i == 12 {
        13
    } else if i == 13 {
        19
    } else if i == 14 {
        20
    } else if i == 15 {
        4
    } else if i == 16 {
        5
    } else if i == 17 {
        11
    } else if i == 18 {
        17
    } else if i == 19 {
        23
    } else if i == 20 {
        2
    } else if i == 21 {
        8
    } else if i == 22 {
        14
    } else if i == 23 {
        15
    } else {
        21
    }
}

fn rho_pi_src(i: usize) -> (r: usize)
    requires
        i < 25,
    ensures
        r == spec_rho_pi_src(i as int),
        r < 25,
{
    if i == 0 {
        0
    } else if i == 1 {
        6
    } else if i == 2 {
        12
    } else if i == 3 {
        18
    } else if i == 4 {
        24
    } else if i == 5 {
        3
    } else if i == 6 {
        9
    } else if i == 7 {
        10
    } else if i == 8 {
        16
    } else if i == 9 {
        22
    } else if i == 10 {
        1
    } else if i == 11 {
        7
    } else if i == 12 {
        13
    } else if i == 13 {
        19
    } else if i == 14 {
        20
    } else if i == 15 {
        4
    } else if i == 16 {
        5
    } else if i == 17 {
        11
    } else if i == 18 {
        17
    } else if i == 19 {
        23
    } else if i == 20 {
        2
    } else if i == 21 {
        8
    } else if i == 22 {
        14
    } else if i == 23 {
        15
    } else {
        21
    }
}

/// Rotation applied to the source lane of each destination lane.
pub open spec fn spec_rho_pi_rot(i: int) -> u64 {
    if i == 0 {
        0
    } else if i == 1 {
        44
    } else if i == 2 {
        43
    } else if i == 3 {
        21
    } else if i == 4 {
        14
    } else if i == 5 {
        28
    } else if i == 6 {
        20
    } else if i == 7 {
        3
    } else if i == 8 {
        45
    } else if i == 9 {
        61
    } else if i == 10 {
        1
    } else if i == 11 {
        6
    } else if i == 12 {
        25
    } else if i == 13 {
        8
    } else if i == 14 {
        18
    } else if i == 15 {
        27
    } else if i == 16 {
        36
    } else if i == 17 {
        10
    } else if i == 18 {
        15
    } else if i == 19 {
        56
    } else if i == 20 {
        62
    } else if i == 21 {
        55
    } else if i == 22 {
        39
    } else if i == 23 {
        41
    } else {
        2
    }
}

fn rho_pi_rot(i: usize) -> (r: u64)
    requires
        i < 25,
    ensures
        r == spec_rho_pi_rot(i as int),
        r < 64,
{
    if i == 0 {
        0
    } else if i == 1 {
        44
    } else if i == 2 {
        43
    } else if i == 3 {
        21
    } else if i == 4 {
        14
    } else if i == 5 {
        28
    } else if i == 6 {
        20
    } else if i == 7 {
        3
    } else if i == 8 {
        45
    } else if i == 9 {
        61
    } else if i == 10 {
        1
    } else if i == 11 {
        6
    } else if i == 12 {
        25
    } else if i == 13 {
        8
    } else if i == 14 {
        18
    } else if i == 15 {
        27
    } else if i == 16 {
        36
    } else if i == 17 {
        10
    } else if i == 18 {
        15
    } else if i == 19 {
        56
    } else if i == 20 {
        62
    } else if i == 21 {
        55
    } else if i == 22 {
        39
    } else if i == 23 {
        41
    } else {
        2
    }
}

/// Rotate a 64-bit lane left by `n` bits.
pub open spec fn spec_rotl64(x: u64, n: u64) -> u64 {
    if n == 0 {
        x
    } else {
        (x << n) | (x >> (64 - n))
    }
}

fn rotl64(x: u64, n: u64) -> (r: u64)
    requires
        n < 64,
    ensures
        r == spec_rotl64(x, n),
{
    if n == 0 {
        x
    } else {
        (x << n) | (x >> (64 - n))
    }
}

/// Column parity used by the theta step.
pub open spec fn spec_theta_c(s: Seq<u64>, x: int) -> u64
    recommends
        s.len() == 25,
        0 <= x < 5,
{
    s[x] ^ s[x + 5] ^ s[x + 10] ^ s[x + 15] ^ s[x + 20]
}

/// Mixing value added to every lane of column `x` by the theta step.
pub open spec fn spec_theta_d(s: Seq<u64>, x: int) -> u64
    recommends
        s.len() == 25,
        0 <= x < 5,
{
    spec_theta_c(s, (x + 4) % 5) ^ spec_rotl64(spec_theta_c(s, (x + 1) % 5), 1)
}

/// The theta step of the permutation.
pub open spec fn spec_theta(s: Seq<u64>) -> Seq<u64>
    recommends
        s.len() == 25,
{
    Seq::new(25, |i: int| s[i] ^ spec_theta_d(s, i % 5))
}

/// The combined rho and pi steps: each lane moves to its new position,
/// rotated by its offset.
pub open spec fn spec_rho_pi(s: Seq<u64>) -> Seq<u64>
    recommends
        s.len() == 25,
{
    Seq::new(25, |i: int| spec_rotl64(s[spec_rho_pi_src(i)], spec_rho_pi_rot(i)))
}

/// The chi step: each lane is mixed with the two lanes to its right in the
/// same row.
pub open spec fn spec_chi(s: Seq<u64>) -> Seq<u64>
    recommends
        s.len() == 25,
{
    Seq::new(25, |i: int| s[i] ^ ((!s[(i % 5 + 1) % 5 + 5 * (i / 5)]) & s[(i % 5 + 2) % 5 + 5 * (i
        / 5)]))
}

/// One round of the permutation.
pub open spec fn spec_keccak_round(s: Seq<u64>, r: int) -> Seq<u64>
    recommends
        s.len() == 25,
        0 <= r < 24,
{
    let mixed = spec_chi(spec_rho_pi(spec_theta(s)));
    mixed.update(0, mixed[0] ^ spec_round_constant(r))
}

/// The first `n` rounds of the permutation.
pub open spec fn spec_keccak_rounds(s: Seq<u64>, n: int) -> Seq<u64>
    recommends
        s.len() == 25,
        0 <= n <= 24,
    decreases n,
{
    if n <= 0 {
        s
    } else {
        spec_keccak_round(spec_keccak_rounds(s, n - 1), n - 1)
    }
}

/// The full 24-round permutation.
pub open spec fn spec_keccak_f1600(s: Seq<u64>) -> Seq<u64>
    recommends
        s.len() == 25,
{
    spec_keccak_rounds(s, 24)
}

/// Keccak-f[1600] permutation over the 25-lane state.
pub fn keccak_f1600(state: &mut Vec<u64>)
    requires
        old(state)@.len() == 25,
    ensures
        final(state)@ == spec_keccak_f1600(old(state)@),
{
    let mut r: usize = 0;
    while r < 24
        invariant
            r <= 24,
            state@.len() == 25,
            state@ == spec_keccak_rounds(old(state)@, r as int),
        decreases 24 - r,
    {
        // theta
        let mut d: Vec<u64> = Vec::new();
        let mut x: usize = 0;
        while x < 5
            invariant
                state@.len() == 25,
                x <= 5,
                d@.len() == x,
                forall|j: int| 0 <= j < x ==> d@[j] == spec_theta_d(state@, j),
            decreases 5 - x,
        {
            let c_left = state[(x + 4) % 5] ^ state[(x + 4) % 5 + 5] ^ state[(x + 4) % 5 + 10]
                ^ state[(x + 4) % 5 + 15] ^ state[(x + 4) % 5 + 20];
            let c_right = state[(x + 1) % 5] ^ state[(x + 1) % 5 + 5] ^ state[(x + 1) % 5 + 10]
                ^ state[(x + 1) % 5 + 15] ^ state[(x + 1) % 5 + 20];
            d.push(c_left ^ rotl64(c_right, 1));
            x = x + 1;
        }
        let mut after_theta: Vec<u64> = Vec::new();
        let mut i: usize = 0;
        while i < 25
            invariant
                state@.len() == 25,
                d@.len() == 5,
                forall|j: int| 0 <= j < 5 ==> d@[j] == spec_theta_d(state@, j),
                i <= 25,
                after_theta@.len() == i,
                forall|j: int| 0 <= j < i ==> after_theta@[j] == spec_theta(state@)[j],
            decreases 25 - i,
        {
            after_theta.push(state[i] ^ d[i % 5]);
            i = i + 1;
        }
        // rho and pi
        let mut after_rho_pi: Vec<u64> = Vec::new();
        let mut i: usize = 0;
        while i < 25
            invariant
                after_theta@.len() == 25,
                after_theta@ == spec_theta(state@),
                state@.len() == 25,
                i <= 25,
                after_rho_pi@.len() == i,
                forall|j: int| 0 <= j < i ==> after_rho_pi@[j] == spec_rho_pi(after_theta@)[j],
            decreases 25 - i,
        {
            after_rho_pi.push(rotl64(after_theta[rho_pi_src(i)], rho_pi_rot(i)));
            i = i + 1;
        }
        // chi
        let mut after_chi: Vec<u64> = Vec::new();
        let mut i: usize = 0;
        while i < 25
            invariant
                after_rho_pi@.len() == 25,
                after_rho_pi@ == spec_rho_pi(spec_theta(state@)),
                state@.len() == 25,
                i <= 25,
                after_chi@.len() == i,
                forall|j: int| 0 <= j < i ==> after_chi@[j] == spec_chi(after_rho_pi@)[j],
            decreases 25 - i,
        {
            after_chi.push(after_rho_pi[i] ^ ((!after_rho_pi[(i % 5 + 1) % 5 + 5 * (i / 5)])
                & after_rho_pi[(i % 5 + 2) % 5 + 5 * (i / 5)]));
            i = i + 1;
        }
        // iota
        let mixed0 = after_chi[0];
        after_chi.set(0, mixed0 ^ round_constant(r));
        proof {
            assert(after_chi@ =~= spec_keccak_round(state@, r as int));
        }
        *state = after_chi;
        r = r + 1;
    }
}

/// XOR the first `n` bytes of a block into the state, least-significant byte
/// of each lane first.
pub open spec fn spec_xor_block(s: Seq<u64>, block: Seq<u8>, n: int) -> Seq<u64>
    recommends
        s.len() == 25,
        n <= block.len(),
        n <= KECCAK_RATE,
    decreases n,
{
    if n <= 0 {
        s
    } else {
        let prev = spec_xor_block(s, block, n - 1);
        prev.update((n - 1) / 8, prev[(n - 1) / 8] ^ ((block[n - 1] as u64) << ((((n - 1) % 8)
            * 8) as u64)))
    }
}

/// Absorb a whole input into the state, one rate-sized block at a time; every
/// block, including a final partial one, is followed by a permutation.
pub open spec fn spec_absorb(s: Seq<u64>, rest: Seq<u8>) -> Seq<u64>
    recommends
        s.len() == 25,
    decreases rest.len(),
{
    if rest.len() == 0 {
        s
    } else {
        let b = vstd::math::min(KECCAK_RATE as int, rest.len() as int);
        spec_absorb(spec_keccak_f1600(spec_xor_block(s, rest.take(b), b)), rest.skip(b))
    }
}

/// XOR the two padding bytes into the state, at the positions the absorbed
/// length determines.
pub open spec fn spec_pad(s: Seq<u64>, len: int) -> Seq<u64>
    recommends
        s.len() == 25,
        len >= 0,
{
    let p = s.update((len % 136) / 8, s[(len % 136) / 8] ^ (0x01u64 << (((len % 8) * 8) as u64)));
    p.update(16, p[16] ^ (0x80u64 << 56))
}

/// Read the 32 output bytes from the state, least-significant byte of each
/// lane first.
pub open spec fn spec_squeeze(s: Seq<u64>) -> Seq<u8>
    recommends
        s.len() == 25,
{
    Seq::new(32, |j: int| ((s[j / 8] >> (((j % 8) * 8) as u64)) & 0xff) as u8)
}

/// The 32-byte digest of the sponge over a byte string.
pub open spec fn spec_keccak256(input: Seq<u8>) -> Seq<u8> {
    spec_squeeze(spec_keccak_f1600(spec_pad(spec_absorb(Seq::new(25, |i: int| 0u64), input),
        input.len() as int)))
}

/// Keccak-based 256-bit digest.
pub fn keccak256(input: &[u8]) -> (r: Vec<u8>)
    ensures
        r@ == spec_keccak256(input@),
        r@.len() == 32,
{
    let ghost zeros = Seq::new(25, |i: int| 0u64);
    let in_len = input.len();
    let mut state: Vec<u64> = Vec::new();
    let mut i: usize = 0;
    while i < 25
        invariant
            i <= 25,
            state@.len() == i,
            forall|j: int| 0 <= j < i ==> state@[j] == 0u64,
        decreases 25 - i,
    {
        state.push(0u64);
        i = i + 1;
    }
    proof {
        assert(state@ =~= zeros);
        assert(input@.skip(0) =~= input@);
    }
    // absorb
    let mut offset: usize = 0;
    while offset < input.len()
        invariant
            state@.len() == 25,
            offset <= input@.len(),
            offset < input@.len() ==> spec_absorb(zeros, input@) == spec_absorb(state@,
                input@.skip(offset as int)),
            offset == input@.len() ==> spec_absorb(zeros, input@) == state@,
        decreases input@.len() - offset,
    {
        let ghost rest = input@.skip(offset as int);
        let block_size = if input.len() - offset < KECCAK_RATE {
            input.len() - offset
        } else {
            KECCAK_RATE
        };
        let mut i: usize = 0;
        let ghost state_in = state@;
        while i < block_size
            invariant
                state@.len() == 25,
                i <= block_size,
                offset + block_size <= input@.len(),
                block_size <= KECCAK_RATE,
                rest == input@.skip(offset as int),
                state@ == spec_xor_block(state_in, rest.take(block_size as int), i as int),
            decreases block_size - i,
        {
            proof {
                assert(input@.len() <= usize::MAX) by {
                    assert(vstd::slice::spec_slice_len(input) == input@.len());
                }
                assert(offset + i < input@.len());
                assert(rest.take(block_size as int)[i as int] == input@[offset + i]);
            }
            let lane = state[i / 8];
            state.set(i / 8, lane ^ ((input[offset + i] as u64) << ((i % 8) as u64 * 8)));
            i = i + 1;
        }
        keccak_f1600(&mut state);
        proof {
            let b = vstd::math::min(KECCAK_RATE as int, rest.len() as int);
            assert(b == block_size as int);
            assert(spec_absorb(state_in, rest) == spec_absorb(spec_keccak_f1600(spec_xor_block(
                state_in, rest.take(b), b)), rest.skip(b)));
            assert(state@ == spec_keccak_f1600(spec_xor_block(state_in, rest.take(b), b)));
            assert(rest.skip(block_size as int) =~= input@.skip((offset + block_size) as int));
        }
        offset = offset + block_size;
    }
    // padding
    let lane_p = state[(in_len % 136) / 8];
    state.set((in_len % 136) / 8, lane_p ^ (0x01u64 << ((in_len % 8) as u64 * 8)));
    let lane_q = state[16];
    state.set(16, lane_q ^ (0x80u64 << 56));
    proof {
        assert(state@ =~= spec_pad(spec_absorb(zeros, input@), input@.len() as int));
    }
    keccak_f1600(&mut state);
    // squeeze
    let mut out: Vec<u8> = Vec::new();
    let mut j: usize = 0;
    while j < 32
        invariant
            state@.len() == 25,
            j <= 32,
            out@.len() == j,
            forall|k: int| 0 <= k < j ==> out@[k] == spec_squeeze(state@)[k],
        decreases 32 - j,
    {
        let lane = state[j / 8];
        let sh = (j % 8) as u64 * 8;
        proof {
            assert((lane >> sh) & 0xff < 256) by (bit_vector);
        }
        out.push(((lane >> sh) & 0xff) as u8);
        j = j + 1;
    }
    proof {
        assert(out@ =~= spec_keccak256(input@));
    }
    out
}

/// 32-byte hash derived from the sponge.
pub open spec fn spec_shake256_32(input: Seq<u8>) -> Seq<u8> {
    spec_keccak256(input)
}

/// 64-byte hash: the digest followed by the digest of the digest.
pub open spec fn spec_shake256_64(input: Seq<u8>) -> Seq<u8> {
    spec_keccak256(input) + spec_keccak256(spec_keccak256(input))
}

/// Hash with 32-byte output.
pub fn shake256_32(input: &[u8]) -> (r: Vec<u8>)
    ensures
        r@ == spec_shake256_32(input@),
        r@.len() == 32,
{
    keccak256(input)
}

/// Hash with 64-byte output.
pub fn shake256_64(input: &[u8]) -> (r: Vec<u8>)
    ensures
        r@ == spec_shake256_64(input@),
        r@.len() == 64,
{
    let mut h1 = keccak256(input);
    let h2 = keccak256(h1.as_slice());
    let mut out = h1;
    let mut i: usize = 0;
    while i < h2.len()
        invariant
            i <= h2@.len(),
            out@ == spec_keccak256(input@) + h2@.take(i as int),
            h2@ == spec_keccak256(spec_keccak256(input@)),
        decreases h2@.len() - i,
    {
        out.push(h2[i]);
        proof {
            assert(h2@.take(i + 1) =~= h2@.take(i as int).push(h2@[i as int]));
        }
        i = i + 1;
    }
    proof {
        assert(h2@.take(h2@.len() as int) =~= h2@);
    }
    out
}

/// The little-endian bytes of a 32-bit block counter.
pub open spec fn spec_le32(c: u32) -> Seq<u8> {
    seq![
        (c & 0xff) as u8,
        ((c >> 8) & 0xff) as u8,
        ((c >> 16) & 0xff) as u8,
        ((c >> 24) & 0xff) as u8,
    ]
}

/// Concatenation of the digests of `seed || counter` for the first `n`
/// counters.
pub open spec fn spec_expand_blocks(seed: Seq<u8>, n: int) -> Seq<u8>
    decreases n,
{
    if n <= 0 {
        Seq::empty()
    } else {
        spec_expand_blocks(seed, n - 1) + spec_keccak256(seed + spec_le32((n - 1) as u32))
    }
}

/// The deterministic pseudorandom stream expanded from a seed.
pub open spec fn spec_expand(seed: Seq<u8>, output_len: int) -> Seq<u8> {
    spec_expand_blocks(seed, (output_len + 31) / 32).take(output_len)
}

/// Expand a seed into `output_len` pseudorandom bytes by hashing the seed
/// together with an incrementing block counter.
pub fn expand_shake128(seed: &[u8], output_len: usize) -> (r: Vec<u8>)
    requires
        output_len < 0x10000000,
    ensures
        r@ == spec_expand(seed@, output_len as int),
        r@.len() == output_len,
{
    let mut output: Vec<u8> = Vec::new();
    let mut counter: u32 = 0;
    while output.len() < output_len
        invariant
            output_len < 0x10000000,
            output@.len() == 32 * counter,
            output@ == spec_expand_blocks(seed@, counter as int),
            32 * counter < output_len + 32,
        decreases output_len + 32 - output@.len(),
    {
        let mut block_input: Vec<u8> = Vec::new();
        block_input.extend_from_slice(seed);
        proof {
            let c = counter;
            assert(c & 0xff < 256 && (c >> 8) & 0xff < 256 && (c >> 16) & 0xff < 256 && (c >> 24)
                & 0xff < 256) by (bit_vector);
        }
        block_input.push((counter & 0xff) as u8);
        block_input.push(((counter >> 8) & 0xff) as u8);
        block_input.push(((counter >> 16) & 0xff) as u8);
        block_input.push(((counter >> 24) & 0xff) as u8);
        proof {
            assert(block_input@ =~= seed@ + spec_le32(counter));
        }
        let mut block = keccak256(block_input.as_slice());
        let mut i: usize = 0;
        let ghost out_before = output@;
        while i < block.len()
            invariant
                i <= block@.len(),
                output@ == out_before + block@.take(i as int),
            decreases block@.len() - i,
        {
            output.push(block[i]);
            proof {
                assert(block@.take(i + 1) =~= block@.take(i as int).push(block@[i as int]));
            }
            i = i + 1;
        }
        proof {
            assert(block@.take(block@.len() as int) =~= block@);
        }
        counter = counter + 1;
    }
    let ghost pre = output@;
    output.truncate(output_len);
    proof {
        assert(output@ =~= pre.take(output_len as int));
        lemma_expand_blocks_take(seed@, counter as int, output_len as int);
    }
    output
}

/// Truncating the block stream at `output_len` gives the same bytes whether
/// the final block is full or partial.
proof fn lemma_expand_blocks_take(seed: Seq<u8>, n: int, output_len: int)
    requires
        0 <= output_len,
        spec_expand_blocks(seed, n).len() == 32 * n,
        output_len <= 32 * n,
        32 * n < output_len + 32,
    ensures
        spec_expand_blocks(seed, n).take(output_len) == spec_expand(seed, output_len),
{
    assert((output_len + 31) / 32 == n) by {
        assert(32 * n < output_len + 32);
        assert(output_len <= 32 * n);
    }
}

} // verus!
