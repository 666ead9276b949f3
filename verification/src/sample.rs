//! Deterministic sampling from hash output: expansion of the public matrix
//! by rejection sampling, and the sparse challenge polynomial drawn by a
//! Fisher-Yates-style shuffle.

use vstd::prelude::*;
use vstd::slice::SliceAdditionalExecFns;

use crate::keccak::{expand_shake128, spec_expand};
use crate::params::{Q, TAU};
use crate::poly::{bounded, pvec_ok, polys_view, spec_zero_poly};

verus! {

/// Rejection sampling of ring coefficients from a hash stream: three bytes
/// form a candidate, kept when it lies below the modulus.
pub open spec fn spec_rej_fill(hash: Seq<u8>, byte_idx: int, coef_idx: int, acc: Seq<i64>)
    -> Seq<i64>
    decreases hash.len() - byte_idx,
{
    if byte_idx < 0 || coef_idx >= 256 || byte_idx + 2 >= hash.len() {
        acc
    } else {
        let val = (hash[byte_idx] as u32) | ((hash[byte_idx + 1] as u32) << 8) | ((((hash[
        byte_idx + 2] as u32) & 0x7F)) << 16);
        if (val as i64) < Q {
            spec_rej_fill(hash, byte_idx + 3, coef_idx + 1, acc.update(coef_idx, val as i64))
        } else {
            spec_rej_fill(hash, byte_idx + 3, coef_idx, acc)
        }
    }
}

/// The seed of one matrix cell: the expansion seed with the cell's column
/// and row appended.
pub open spec fn spec_cell_seed(rho: Seq<u8>, i: int, j: int) -> Seq<u8> {
    rho + seq![j as u8, i as u8]
}

/// One cell of the public matrix.
pub open spec fn spec_matrix_cell(rho: Seq<u8>, i: int, j: int) -> Seq<i64> {
    spec_rej_fill(spec_expand(spec_cell_seed(rho, i, j), 768), 0, 0, spec_zero_poly())
}

/// The public matrix expanded from a seed.
pub open spec fn spec_expand_a(rho: Seq<u8>) -> Seq<Seq<Seq<i64>>> {
    Seq::new(4, |i: int| Seq::new(4, |j: int| spec_matrix_cell(rho, i, j)))
}

/// Fill one polynomial by rejection sampling from a hash stream.
fn rej_fill_poly(hash: &Vec<u8>) -> (r: Vec<i64>)
    requires
        hash@.len() <= 100000,
    ensures
        r@.len() == 256,
        r@ == spec_rej_fill(hash@, 0, 0, spec_zero_poly()),
        bounded(r@, Q - 1),
{
    let mut acc = vec![0i64; 256];
    proof {
        assert(acc@ =~= spec_zero_poly());
        assert(bounded(acc@, 0));
    }
    let mut byte_idx: usize = 0;
    let mut coef_idx: usize = 0;
    while coef_idx < 256 && byte_idx + 2 < hash.len()
        invariant
            hash@.len() <= 100000,
            byte_idx <= hash@.len() + 2,
            acc@.len() == 256,
            bounded(acc@, Q - 1),
            coef_idx <= 256,
            spec_rej_fill(hash@, 0, 0, spec_zero_poly()) == spec_rej_fill(hash@, byte_idx as int,
                coef_idx as int, acc@),
        decreases hash@.len() - byte_idx,
    {
        let b0 = hash[byte_idx] as u32;
        let b1 = hash[byte_idx + 1] as u32;
        let b2 = (hash[byte_idx + 2] & 0x7F) as u32;
        let val = b0 | (b1 << 8) | (b2 << 16);
        proof {
            let h2 = hash@[byte_idx + 2] as u32;
            assert(((h2 & 0x7F)) << 16 == ((h2 as u8 & 0x7F) as u32) << 16) by (bit_vector);
            assert(b0 <= 255 && b1 <= 255 && b2 <= 127 ==> (b0 | (b1 << 8) | (b2 << 16))
                <= 0x7FFFFF) by (bit_vector);
        }
        if (val as i64) < Q {
            acc.set(coef_idx, val as i64);
            coef_idx = coef_idx + 1;
        }
        byte_idx = byte_idx + 3;
    }
    acc
}

/// Expand the public matrix from its seed: each cell is sampled from the
/// hash stream of the seed with the cell's coordinates appended.
pub fn expand_a(rho: &Vec<u8>) -> (r: Vec<Vec<Vec<i64>>>)
    requires
        rho@.len() == 32,
    ensures
        r@.len() == 4,
        forall|i: int| 0 <= i < 4 ==> (#[trigger] r@[i]@).len() == 4 && pvec_ok(r@[i]@, Q - 1),
        forall|i: int, j: int| 0 <= i < 4 && 0 <= j < 4 ==> #[trigger] r@[i]@[j]@
            == spec_matrix_cell(rho@, i, j),
{
    let mut a: Vec<Vec<Vec<i64>>> = Vec::new();
    let mut i: usize = 0;
    while i < 4
        invariant
            rho@.len() == 32,
            i <= 4,
            a@.len() == i,
            forall|m: int| 0 <= m < i ==> (#[trigger] a@[m]@).len() == 4 && pvec_ok(a@[m]@, Q
                - 1),
            forall|m: int, j: int| 0 <= m < i && 0 <= j < 4 ==> #[trigger] a@[m]@[j]@
                == spec_matrix_cell(rho@, m, j),
        decreases 4 - i,
    {
        let mut row: Vec<Vec<i64>> = Vec::new();
        let mut j: usize = 0;
        while j < 4
            invariant
                rho@.len() == 32,
                i < 4,
                j <= 4,
                row@.len() == j,
                pvec_ok(row@, Q - 1),
                forall|m: int| 0 <= m < j ==> #[trigger] row@[m]@ == spec_matrix_cell(rho@,
                    i as int, m),
            decreases 4 - j,
        {
            let mut seed: Vec<u8> = Vec::new();
            seed.extend_from_slice(rho.as_slice());
            seed.push(j as u8);
            seed.push(i as u8);
            proof {
                assert(seed@ =~= spec_cell_seed(rho@, i as int, j as int));
            }
            let hash = expand_shake128(seed.as_slice(), 768);
            row.push(rej_fill_poly(&hash));
            j = j + 1;
        }
        a.push(row);
        i = i + 1;
    }
    a
}

/// The sign word drawn from the first eight bytes of the challenge stream.
pub open spec fn spec_signs(hash: Seq<u8>) -> u64 {
    (hash[0] as u64) | ((hash[1] as u64) << 8) | ((hash[2] as u64) << 16) | ((hash[3] as u64)
        << 24) | ((hash[4] as u64) << 32) | ((hash[5] as u64) << 40) | ((hash[6] as u64) << 48)
        | ((hash[7] as u64) << 56)
}

/// The first stream position at or after `k` whose byte is at most `i`, or
/// -1 when the stream runs out.
pub open spec fn spec_find(hash: Seq<u8>, k: int, i: int) -> int
    decreases hash.len() - k,
{
    if k < 0 || k >= hash.len() {
        -1
    } else if hash[k] as int <= i {
        k
    } else {
        spec_find(hash, k + 1, i)
    }
}

/// The shuffle that places the challenge's nonzero coefficients, one
/// position per accepted stream byte; stops early when the stream runs out.
pub open spec fn spec_ball_loop(hash: Seq<u8>, i: int, k: int, signs: u64, c: Seq<i64>)
    -> Seq<i64>
    decreases 256 - i,
{
    if i < 217 || i >= 256 {
        c
    } else {
        let kf = spec_find(hash, k, i);
        if kf == -1 {
            c
        } else {
            let j = hash[kf] as int;
            let c2 = c.update(i, c[j]).update(j, if signs & 1 != 0 {
                -1i64
            } else {
                1i64
            });
            spec_ball_loop(hash, i + 1, kf + 1, signs >> 1, c2)
        }
    }
}

/// The sparse challenge polynomial drawn from a 32-byte seed.
pub open spec fn spec_sample_in_ball(seed: Seq<u8>) -> Seq<i64> {
    let hash = spec_expand(seed, 256);
    spec_ball_loop(hash, 217, 8, spec_signs(hash), spec_zero_poly())
}

/// Sample the challenge polynomial with exactly as many nonzero
/// coefficients as the challenge weight, each -1 or 1, by a deterministic
/// shuffle over the expanded seed.
pub fn sample_in_ball(seed: &Vec<u8>) -> (r: Vec<i64>)
    requires
        seed@.len() == 32,
    ensures
        r@.len() == 256,
        r@ == spec_sample_in_ball(seed@),
        bounded(r@, 1),
{
    let hash = expand_shake128(seed.as_slice(), 256);
    let mut c = vec![0i64; 256];
    proof {
        assert(c@ =~= spec_zero_poly());
        assert(bounded(c@, 1));
    }
    let mut signs: u64 = (hash[0] as u64) | ((hash[1] as u64) << 8) | ((hash[2] as u64) << 16)
        | ((hash[3] as u64) << 24) | ((hash[4] as u64) << 32) | ((hash[5] as u64) << 40) | ((
    hash[6] as u64) << 48) | ((hash[7] as u64) << 56);
    let mut k: usize = 8;
    let mut i: usize = 256 - TAU;
    while i < 256
        invariant
            hash@.len() == 256,
            hash@ == spec_expand(seed@, 256),
            c@.len() == 256,
            bounded(c@, 1),
            217 <= i <= 256,
            8 <= k <= 256,
            spec_sample_in_ball(seed@) == spec_ball_loop(hash@, i as int, k as int, signs, c@),
        decreases 256 - i,
    {
        if k >= 256 {
            proof {
                assert(spec_find(hash@, k as int, i as int) == -1);
                assert(spec_ball_loop(hash@, i as int, k as int, signs, c@) == c@);
            }
            return c;
        }
        let ghost k0 = k as int;
        let mut j = hash[k] as usize;
        while j > i
            invariant
                hash@.len() == 256,
                c@.len() == 256,
                bounded(c@, 1),
                217 <= i < 256,
                k0 <= k < 256,
                j == hash@[k as int] as usize,
                spec_find(hash@, k0, i as int) == spec_find(hash@, k as int, i as int),
                spec_sample_in_ball(seed@) == spec_ball_loop(hash@, i as int, k0, signs, c@),
            decreases 256 - k,
        {
            proof {
                assert(spec_find(hash@, k as int, i as int) == spec_find(hash@, k + 1,
                    i as int));
            }
            k = k + 1;
            if k >= 256 {
                proof {
                    assert(spec_find(hash@, 256, i as int) == -1);
                    assert(spec_ball_loop(hash@, i as int, k0, signs, c@) == c@);
                }
                return c;
            }
            j = hash[k] as usize;
        }
        proof {
            assert(spec_find(hash@, k as int, i as int) == k as int);
            assert(spec_find(hash@, k0, i as int) == k as int);
        }
        let ghost c_old = c@;
        let cj = c[j];
        c.set(i, cj);
        c.set(j, if signs & 1 != 0 { -1i64 } else { 1i64 });
        proof {
            assert(c@ == c_old.update(i as int, c_old[j as int]).update(j as int, if signs & 1
                != 0 { -1i64 } else { 1i64 }));
            assert(spec_ball_loop(hash@, i as int, k0, signs, c_old) == spec_ball_loop(hash@, i
                + 1, k + 1, signs >> 1u64, c@));
        }
        k = k + 1;
        signs = signs >> 1u64;
        i = i + 1;
    }
    c
}

} // verus!
