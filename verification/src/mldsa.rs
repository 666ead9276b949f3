//! The ML-DSA (Dilithium2) signature verifier: hint-based recovery of the
//! high-order commitment, challenge re-derivation, and the top-level
//! `verify_mldsa_signature`, a pure boolean function of its three inputs.

use vstd::prelude::*;
use vstd::slice::SliceAdditionalExecFns;

use crate::keccak::{shake256_32, shake256_64, spec_shake256_32, spec_shake256_64};
use crate::pack::{
    parse_public_key, parse_signature, rows_view, spec_unpack_hints, spec_unpack_t1,
    spec_unpack_z,
};
use crate::params::{BETA, D, GAMMA1, MLDSA_PUBLIC_KEY_SIZE, MLDSA_SIGNATURE_SIZE, Q};
use crate::poly::{
    bounded, mat_view, matrix_ntt_mult, poly_vec_mult_scalar, poly_vec_shift, poly_vec_sub,
    polys_view, pvec_ok, spec_matrix_ntt_mult, spec_reduce_mod_q, spec_poly_vec_mult_scalar, spec_poly_vec_shift,
    spec_poly_vec_sub,
};
use crate::sample::{expand_a, sample_in_ball, spec_expand_a, spec_sample_in_ball};

verus! {

/// The high-order part of a coefficient, after recentering into `[0, Q)`.
pub open spec fn spec_decompose_high(r: int) -> int {
    let gamma2 = (Q - 1) / 88;
    let r_pos = if r < 0 {
        r + Q
    } else {
        r
    };
    (r_pos + gamma2 / 2) / gamma2
}

/// Extract the high-order part of a coefficient.
pub fn decompose_high(r: i64) -> (h: i64)
    requires
        0 <= r < Q,
    ensures
        h == spec_decompose_high(r as int),
        0 <= h <= 88,
{
    let gamma2 = (Q - 1) / 88;
    let r_pos = if r < 0 {
        r + Q
    } else {
        r
    };
    (r_pos + gamma2 / 2) / gamma2
}

/// The high-order commitment recovered with the hint bits: a set hint bumps
/// the high part by one, modulo the encoding range.
pub open spec fn spec_use_hints(hints: Seq<Seq<bool>>, w: Seq<Seq<i64>>) -> Seq<Seq<i64>> {
    Seq::new(4, |k: int| Seq::new(256, |i: int|
        if hints[k][i] {
            ((spec_decompose_high(w[k][i] as int) + 1) % 16) as i64
        } else {
            spec_decompose_high(w[k][i] as int) as i64
        }))
}

/// Recover the high-order commitment from the approximation, applying the
/// hint bits.
pub fn use_hints(hints: &Vec<Vec<bool>>, w: &Vec<Vec<i64>>) -> (r: Vec<Vec<i64>>)
    requires
        hints@.len() == 4,
        forall|k: int| 0 <= k < 4 ==> (#[trigger] hints@[k]@).len() == 256,
        w@.len() == 4,
        pvec_ok(w@, 0x80_0000),
        forall|k: int, i: int| 0 <= k < 4 && 0 <= i < 256 ==> 0 <= #[trigger] w@[k]@[i] < Q,
    ensures
        r@.len() == 4,
        polys_view(r@) == spec_use_hints(rows_view(hints@), polys_view(w@)),
        pvec_ok(r@, 0x80_0000),
{
    let ghost hv = rows_view(hints@);
    let ghost wv = polys_view(w@);
    let mut r: Vec<Vec<i64>> = Vec::new();
    let mut k: usize = 0;
    while k < 4
        invariant
            hints@.len() == 4,
            forall|m: int| 0 <= m < 4 ==> (#[trigger] hints@[m]@).len() == 256,
            hv == rows_view(hints@),
            w@.len() == 4,
            pvec_ok(w@, 0x80_0000),
            forall|m: int, i: int| 0 <= m < 4 && 0 <= i < 256 ==> 0 <= #[trigger] w@[m]@[i] < Q,
            wv == polys_view(w@),
            k <= 4,
            r@.len() == k,
            forall|j: int| 0 <= j < k ==> #[trigger] r@[j]@ == spec_use_hints(hv, wv)[j],
            pvec_ok(r@, 0x80_0000),
        decreases 4 - k,
    {
        let mut row: Vec<i64> = Vec::new();
        let mut i: usize = 0;
        while i < 256
            invariant
                hints@.len() == 4,
                forall|m: int| 0 <= m < 4 ==> (#[trigger] hints@[m]@).len() == 256,
                hv == rows_view(hints@),
                w@.len() == 4,
                pvec_ok(w@, 0x80_0000),
                forall|m: int, n: int| 0 <= m < 4 && 0 <= n < 256 ==> 0 <= #[trigger] w@[m]@[n]
                    < Q,
                wv == polys_view(w@),
                k < 4,
                i <= 256,
                row@.len() == i,
                forall|m: int| 0 <= m < i ==> row@[m] == spec_use_hints(hv, wv)[k as int][m],
                bounded(row@, 0x80_0000),
            decreases 256 - i,
        {
            proof {
                assert(w@[k as int]@ == wv[k as int]);
                assert(hints@[k as int]@ == hv[k as int]);
            }
            let r1 = decompose_high(w[k][i]);
            if hints[k][i] {
                row.push((r1 + 1) % 16);
            } else {
                row.push(r1);
            }
            i = i + 1;
        }
        proof {
            assert(row@ =~= spec_use_hints(hv, wv)[k as int]);
        }
        r.push(row);
        k = k + 1;
    }
    proof {
        assert(polys_view(r@) =~~= spec_use_hints(hv, wv));
    }
    r
}

/// The byte encoding of the high-order commitment: two 4-bit values per
/// byte.
pub open spec fn spec_encode_w1(w1: Seq<Seq<i64>>) -> Seq<u8> {
    Seq::new(512, |j: int| (((w1[j / 128][(j % 128) * 2] & 0x0F) | ((w1[j / 128][(j % 128) * 2
        + 1] & 0x0F) << 4)) & 0xFF) as u8)
}

/// Pack the high-order commitment into bytes for challenge re-derivation.
pub fn encode_w1(w1: &Vec<Vec<i64>>) -> (r: Vec<u8>)
    requires
        w1@.len() == 4,
        pvec_ok(w1@, 0x80_0000),
    ensures
        r@ == spec_encode_w1(polys_view(w1@)),
        r@.len() == 512,
{
    let ghost wv = polys_view(w1@);
    let mut out: Vec<u8> = Vec::new();
    let mut k: usize = 0;
    while k < 4
        invariant
            w1@.len() == 4,
            pvec_ok(w1@, 0x80_0000),
            wv == polys_view(w1@),
            k <= 4,
            out@.len() == k * 128,
            forall|j: int| 0 <= j < k * 128 ==> out@[j] == spec_encode_w1(wv)[j],
        decreases 4 - k,
    {
        let mut i: usize = 0;
        while i < 256
            invariant
                w1@.len() == 4,
                pvec_ok(w1@, 0x80_0000),
                wv == polys_view(w1@),
                k < 4,
                i <= 256,
                i % 2 == 0,
                out@.len() == k * 128 + i / 2,
                forall|j: int| 0 <= j < k * 128 + i / 2 ==> out@[j] == spec_encode_w1(wv)[j],
            decreases 256 - i,
        {
            proof {
                assert(w1@[k as int]@ == wv[k as int]);
            }
            let a = w1[k][i];
            let b = w1[k][i + 1];
            proof {
                assert(0 <= ((a & 0x0F) | ((b & 0x0F) << 4)) & 0xFF <= 255) by (bit_vector);
                assert((k * 128 + i / 2) / 128 == k as int && ((k * 128 + i / 2) % 128) * 2
                    == i);
            }
            out.push(((((a & 0x0F) | ((b & 0x0F) << 4)) & 0xFF)) as u8);
            i = i + 2;
        }
        k = k + 1;
    }
    proof {
        assert(out@ =~= spec_encode_w1(wv));
    }
    out
}

/// Every response coefficient lies strictly within the acceptance bound.
pub open spec fn spec_check_z_norm(z: Seq<Seq<i64>>) -> bool {
    forall|k: int, i: int| 0 <= k < 4 && 0 <= i < 256 ==> -(GAMMA1 - BETA) < #[trigger] z[k][i]
        < GAMMA1 - BETA
}

/// Check that the infinity norm of the response vector stays strictly
/// below the acceptance bound.
pub fn check_z_norm(z: &Vec<Vec<i64>>) -> (r: bool)
    requires
        z@.len() == 4,
        pvec_ok(z@, 0x80_0000),
    ensures
        r == spec_check_z_norm(polys_view(z@)),
{
    let ghost zv = polys_view(z@);
    let bound = GAMMA1 - BETA;
    let mut k: usize = 0;
    while k < 4
        invariant
            z@.len() == 4,
            pvec_ok(z@, 0x80_0000),
            zv == polys_view(z@),
            bound == GAMMA1 - BETA,
            k <= 4,
            forall|m: int, i: int| 0 <= m < k && 0 <= i < 256 ==> -(GAMMA1 - BETA)
                < #[trigger] zv[m][i] < GAMMA1 - BETA,
        decreases 4 - k,
    {
        let mut i: usize = 0;
        while i < 256
            invariant
                z@.len() == 4,
                pvec_ok(z@, 0x80_0000),
                zv == polys_view(z@),
                bound == GAMMA1 - BETA,
                k < 4,
                i <= 256,
                forall|m: int, n: int| 0 <= m < k && 0 <= n < 256 ==> -(GAMMA1 - BETA)
                    < #[trigger] zv[m][n] < GAMMA1 - BETA,
                forall|n: int| 0 <= n < i ==> -(GAMMA1 - BETA) < #[trigger] zv[k as int][n]
                    < GAMMA1 - BETA,
            decreases 256 - i,
        {
            proof {
                assert(z@[k as int]@ == zv[k as int]);
            }
            let coef = z[k][i];
            if coef >= bound || coef <= -bound {
                proof {
                    assert(!(-(GAMMA1 - BETA) < zv[k as int][i as int] < GAMMA1 - BETA));
                }
                return false;
            }
            i = i + 1;
        }
        k = k + 1;
    }
    true
}

/// What the verifier computes for given message, public key and signature:
/// parse both, re-derive the challenge, reconstruct the high-order
/// commitment through the hint bits, and accept exactly when the re-derived
/// challenge seed matches and the response stays within its norm bound.
pub open spec fn spec_verify_mldsa(msg: Seq<u8>, pk: Seq<u8>, sig: Seq<u8>) -> bool {
    if pk.len() != MLDSA_PUBLIC_KEY_SIZE || sig.len() != MLDSA_SIGNATURE_SIZE {
        false
    } else {
        let rho = pk.subrange(0, 32);
        let t1 = spec_unpack_t1(pk.subrange(32, MLDSA_PUBLIC_KEY_SIZE as int));
        let c_tilde = sig.subrange(0, 32);
        let z = spec_unpack_z(sig.subrange(32, 2336));
        match spec_unpack_hints(sig.subrange(2336, MLDSA_SIGNATURE_SIZE as int)) {
            None => false,
            Some(hints) => {
                let tr = spec_shake256_64(pk);
                let mu = spec_shake256_64(tr + msg);
                let a = spec_expand_a(rho);
                let c = spec_sample_in_ball(c_tilde);
                let az = spec_matrix_ntt_mult(a, z);
                let ct1 = spec_poly_vec_mult_scalar(t1, c);
                let shifted = spec_poly_vec_shift(ct1, D as int);
                let w_approx = spec_poly_vec_sub(az, shifted);
                let w1 = spec_use_hints(hints, w_approx);
                let c_prime = spec_shake256_32(mu + spec_encode_w1(w1));
                c_tilde == c_prime && spec_check_z_norm(z)
            },
        }
    }
}

/// Verify an ML-DSA (Dilithium2) signature. Total: malformed input is
/// rejected, never a panic.
#[verifier::rlimit(100)]
pub fn verify_mldsa_signature(message: &[u8], public_key: &[u8], signature: &[u8]) -> (r: bool)
    ensures
        r == spec_verify_mldsa(message@, public_key@, signature@),
{
    if public_key.len() != MLDSA_PUBLIC_KEY_SIZE {
        return false;
    }
    if signature.len() != MLDSA_SIGNATURE_SIZE {
        return false;
    }
    let (rho, t1) = match parse_public_key(public_key) {
        Some(pk) => pk,
        None => {
            return false;
        },
    };
    let (c_tilde, z, hints) = match parse_signature(signature) {
        Some(sig) => sig,
        None => {
            return false;
        },
    };
    // tr = H(pk), mu = H(tr || message)
    let tr = shake256_64(public_key);
    let mut mu_input = tr;
    mu_input.extend_from_slice(message);
    proof {
        assert(mu_input@ == spec_shake256_64(public_key@) + message@);
    }
    let mu = shake256_64(mu_input.as_slice());
    // Expand the public matrix and re-derive the challenge.
    let a_matrix = expand_a(&rho);
    let c = sample_in_ball(&c_tilde);
    // w_approx = A*z - (c*t1) << 13
    proof {
        assert(mat_view(a_matrix@) =~~= spec_expand_a(rho@));
        assert(forall|k: int| 0 <= k < 4 ==> pvec_ok(#[trigger] a_matrix@[k]@, 0x80_0000));
    }
    let az = matrix_ntt_mult(&a_matrix, &z);
    let ct1 = poly_vec_mult_scalar(&t1, &c);
    let ct1_shifted = poly_vec_shift(&ct1, D);
    let w_approx = poly_vec_sub(&az, &ct1_shifted);
    proof {
        assert forall|k: int, i: int| 0 <= k < 4 && 0 <= i < 256 implies 0 <= #[trigger] w_approx@[
            k]@[i] < Q by {
            assert(polys_view(w_approx@)[k][i] == w_approx@[k]@[i]);
            assert(polys_view(w_approx@)[k][i] == spec_reduce_mod_q(polys_view(az@)[k][i]
                - polys_view(ct1_shifted@)[k][i]) as i64);
            vstd::arithmetic::div_mod::lemma_mod_division_less_than_divisor(polys_view(az@)[k][
                i] - polys_view(ct1_shifted@)[k][i], Q as int);
        };
    }
    // Recover w1 through the hints and re-derive the challenge seed.
    let w1 = use_hints(&hints, &w_approx);
    let w1_bytes = encode_w1(&w1);
    let mut c_input = mu;
    c_input.extend_from_slice(w1_bytes.as_slice());
    let c_prime = shake256_32(c_input.as_slice());
    proof {
        assert(c_input@ == spec_shake256_64(spec_shake256_64(public_key@) + message@)
            + spec_encode_w1(polys_view(w1@)));
    }
    // Accept exactly when the seeds match and the response is small.
    let mut equal = c_tilde.len() == c_prime.len();
    let mut i: usize = 0;
    while i < 32
        invariant
            c_tilde@.len() == 32,
            c_prime@.len() == 32,
            i <= 32,
            equal == (c_tilde@.len() == c_prime@.len() && (forall|m: int| 0 <= m < i
                ==> c_tilde@[m] == c_prime@[m])),
        decreases 32 - i,
    {
        if c_tilde[i] != c_prime[i] {
            equal = false;
        }
        i = i + 1;
    }
    proof {
        if equal {
            assert(c_tilde@ =~= c_prime@);
        }
    }
    if !equal {
        return false;
    }
    check_z_norm(&z)
}

/// Verification is deterministic: equal message, key and signature always
/// give the same answer, on either side of the proof boundary and on every
/// machine.
pub proof fn lemma_verify_deterministic(
    msg1: Seq<u8>,
    pk1: Seq<u8>,
    sig1: Seq<u8>,
    msg2: Seq<u8>,
    pk2: Seq<u8>,
    sig2: Seq<u8>,
)
    requires
        msg1 == msg2,
        pk1 == pk2,
        sig1 == sig2,
    ensures
        spec_verify_mldsa(msg1, pk1, sig1) == spec_verify_mldsa(msg2, pk2, sig2),
{
}

} // verus!
