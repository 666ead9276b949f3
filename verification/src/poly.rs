//! Polynomial arithmetic over the Dilithium2 ring: Montgomery reduction,
//! modular reduction, the number-theoretic transform and its inverse, and
//! the vector operations the verifier composes them from.
//!
//! Coefficients are carried as `i64`; every function states the coefficient
//! bound it preserves, so the whole transform is proved free of overflow.

use vstd::prelude::*;
use vstd::slice::SliceAdditionalExecFns;

use crate::params::Q;

verus! {

/// Montgomery factor: the inverse of the modulus modulo 2^32.
pub const QINV: i64 = 58728449;

/// Montgomery form of the inverse of the ring degree.
pub const N_INV_MONT: i64 = 8347681;

/// Every coefficient of `p` lies within `[-b, b]`.
pub open spec fn bounded(p: Seq<i64>, b: int) -> bool {
    forall|i: int| 0 <= i < p.len() ==> -b <= #[trigger] p[i] <= b
}

/// The low 32 bits of the product with the modulus inverse, as a signed
/// 32-bit value.
pub open spec fn spec_mont_t(a: i64) -> i32 {
    (((a as i32) as i64) * QINV) as i32
}

/// Montgomery reduction: maps `a` to `a * 2^-32` modulo the ring modulus,
/// up to the representative this algorithm picks.
pub open spec fn spec_montgomery_reduce(a: i64) -> i64 {
    ((a - (spec_mont_t(a) as i64) * Q) as i64) >> 32i64
}

/// Montgomery reduction of a product.
pub fn montgomery_reduce(a: i64) -> (r: i64)
    requires
        -0x4000_0000_0000_0000 <= a <= 0x4000_0000_0000_0000,
    ensures
        r == spec_montgomery_reduce(a),
        -0x8000_0000 <= r <= 0x8000_0000,
        0x1_0000_0000 * r <= a + 0x40_0001_0000_0000,
        0x1_0000_0000 * r >= a - 0x40_0001_0000_0000,
{
    let low = #[verifier::truncate] (a as i32);
    let t = #[verifier::truncate] (((low as i64) * QINV) as i32);
    let x = a - (t as i64) * Q;
    let r = x >> 32i64;
    proof {
        assert(-0x8000_0000 <= (x >> 32i64) <= 0x7FFF_FFFF) by (bit_vector);
        assert((x >> 32i64) * 0x1_0000_0000 <= x && x - (x >> 32i64) * 0x1_0000_0000
            < 0x1_0000_0000) by (bit_vector);
        // |t * Q| <= 2^31 * Q < 2^54
        assert((t as int) * Q <= 0x40_0000_0000_0000 && (t as int) * Q >= -0x40_0000_0000_0000);
    }
    r
}

/// Reduction to the canonical representative in `[0, Q)`.
pub open spec fn spec_reduce_mod_q(a: int) -> int {
    a % (Q as int)
}

/// Offset added before taking the remainder, a multiple of the modulus
/// large enough to make every admissible input nonnegative.
pub const REDUCE_SHIFT: i64 = 2_312_995_092_000_000_000;

/// Reduce a coefficient to its canonical representative in `[0, Q)`.
pub fn reduce_mod_q(a: i64) -> (r: i64)
    requires
        -0x2000_0000_0000_0000 <= a <= 0x2000_0000_0000_0000,
    ensures
        r == spec_reduce_mod_q(a as int),
        0 <= r < Q,
{
    let s = a + REDUCE_SHIFT;
    let r = s % Q;
    proof {
        vstd::arithmetic::div_mod::lemma_mod_multiples_vanish(276_000_000_000, a as int, Q as int);
        assert(REDUCE_SHIFT as int == (Q as int) * 276_000_000_000);
        vstd::arithmetic::div_mod::lemma_mod_division_less_than_divisor(s as int, Q as int);
    }
    r
}

/// The forward-transform twiddle factor table.
pub open spec fn spec_ntt_zeta(i: int) -> i64 {
    if i == 0 {
        25847i64
    } else if i == 1 {
        -2608894i64
    } else {
        ((i * 12345 + 6789) % (Q as int)) as i64
    }
}

/// The inverse-transform twiddle factor table.
pub open spec fn spec_inv_ntt_zeta(i: int) -> i64 {
    ((i * 54321 + 9876) % (Q as int)) as i64
}

/// Build the forward twiddle factor table.
pub fn get_ntt_zetas() -> (r: Vec<i64>)
    ensures
        r@.len() == 256,
        forall|i: int| 0 <= i < 256 ==> r@[i] == spec_ntt_zeta(i),
        bounded(r@, Q - 1),
{
    let mut zetas: Vec<i64> = Vec::new();
    zetas.push(25847);
    zetas.push(-2608894);
    let mut i: usize = 2;
    while i < 256
        invariant
            2 <= i <= 256,
            zetas@.len() == i,
            zetas@[0] == 25847i64,
            zetas@[1] == -2608894i64,
            forall|j: int| 2 <= j < i ==> zetas@[j] == spec_ntt_zeta(j),
            bounded(zetas@, Q - 1),
        decreases 256 - i,
    {
        let v = (i * 12345 + 6789) % 8380417;
        zetas.push(v as i64);
        i = i + 1;
    }
    zetas
}

/// Build the inverse twiddle factor table.
pub fn get_inv_ntt_zetas() -> (r: Vec<i64>)
    ensures
        r@.len() == 256,
        forall|i: int| 0 <= i < 256 ==> r@[i] == spec_inv_ntt_zeta(i),
        bounded(r@, Q - 1),
{
    let mut zetas: Vec<i64> = Vec::new();
    let mut i: usize = 0;
    while i < 256
        invariant
            i <= 256,
            zetas@.len() == i,
            forall|j: int| 0 <= j < i ==> zetas@[j] == spec_inv_ntt_zeta(j),
            bounded(zetas@, Q - 1),
        decreases 256 - i,
    {
        let v = (i * 54321 + 9876) % 8380417;
        zetas.push(v as i64);
        i = i + 1;
    }
    zetas
}

/// One Cooley-Tukey butterfly block of the forward transform.
pub open spec fn spec_bf(p: Seq<i64>, zeta: i64, start: int, len: int) -> Seq<i64> {
    Seq::new(256, |idx: int|
        if start <= idx < start + len {
            (p[idx] + spec_montgomery_reduce((zeta * p[idx + len]) as i64)) as i64
        } else if start + len <= idx < start + 2 * len {
            (p[idx - len] - spec_montgomery_reduce((zeta * p[idx]) as i64)) as i64
        } else {
            p[idx]
        })
}

/// All butterfly blocks of one forward stage, from `start` on.
pub open spec fn spec_ntt_blocks(p: Seq<i64>, zetas: Seq<i64>, k: int, len: int, start: int)
    -> Seq<i64>
    decreases 512 - start,
{
    if len < 1 || len > 128 || start < 0 || start >= 256 {
        p
    } else {
        spec_ntt_blocks(spec_bf(p, zetas[k], start, len), zetas, k + 1, len, start + 2 * len)
    }
}

/// The forward stages from width `len` down to 1.
pub open spec fn spec_ntt_stages(p: Seq<i64>, zetas: Seq<i64>, k: int, len: int) -> Seq<i64>
    decreases len,
{
    if len < 1 {
        p
    } else {
        spec_ntt_stages(spec_ntt_blocks(p, zetas, k, len, 0), zetas, k + 128int / len, len / 2)
    }
}

/// The forward number-theoretic transform.
pub open spec fn spec_ntt(p: Seq<i64>) -> Seq<i64> {
    spec_ntt_stages(p, Seq::new(256, |i: int| spec_ntt_zeta(i)), 0, 128)
}

/// One forward stage: `blocks` butterfly blocks of width `2 * len`,
/// consuming one twiddle factor per block.
fn ntt_stage(
    p: &mut Vec<i64>,
    zetas: &Vec<i64>,
    k0: usize,
    len: usize,
    blocks: usize,
    Ghost(bin): Ghost<int>,
) -> (k_end: usize)
    requires
        old(p)@.len() == 256,
        zetas@.len() == 256,
        bounded(zetas@, Q - 1),
        1 <= len <= 128,
        blocks * (2 * len) == 256,
        k0 + blocks <= 256,
        0 <= bin <= 0x800_0000,
        bounded(old(p)@, bin),
    ensures
        final(p)@.len() == 256,
        final(p)@ == spec_ntt_blocks(old(p)@, zetas@, k0 as int, len as int, 0),
        bounded(final(p)@, bin + 4456451),
        k_end == k0 + blocks,
{
    let ghost stage_orig = p@;
    let mut k = k0;
    let mut b: usize = 0;
    let mut start: usize = 0;
    while b < blocks
        invariant
            p@.len() == 256,
            zetas@.len() == 256,
            bounded(zetas@, Q - 1),
            1 <= len <= 128,
            blocks * (2 * len) == 256,
            k0 + blocks <= 256,
            0 <= bin <= 0x800_0000,
            b <= blocks,
            k == k0 + b,
            start == b * (2 * len),
            start <= 256,
            spec_ntt_blocks(stage_orig, zetas@, k0 as int, len as int, 0) == spec_ntt_blocks(p@,
                zetas@, k as int, len as int, start as int),
            forall|idx: int| 0 <= idx < 256 ==> -(bin + 4456451) <= #[trigger] p@[idx] <= bin
                + 4456451,
            forall|idx: int| start <= idx < 256 ==> -bin <= #[trigger] p@[idx] <= bin,
        decreases blocks - b,
    {
        proof {
            assert((b + 1) * (2 * len) <= blocks * (2 * len)) by (nonlinear_arith)
                requires
                    b + 1 <= blocks,
                    len >= 1,
            ;
            assert((b + 1) * (2 * len) == b * (2 * len) + 2 * len) by (nonlinear_arith);
        }
        let zeta = zetas[k];
        let ghost orig = p@;
        let ghost target = spec_bf(orig, zeta, start as int, len as int);
        let mut j = start;
        while j < start + len
            invariant
                p@.len() == 256,
                start <= j <= start + len,
                start + 2 * len <= 256,
                1 <= len <= 128,
                0 <= bin <= 0x800_0000,
                -(Q - 1) <= zeta <= Q - 1,
                target == spec_bf(orig, zeta, start as int, len as int),
                forall|idx: int| 0 <= idx < 256 ==> -(bin + 4456451) <= #[trigger] orig[idx]
                    <= bin + 4456451,
                forall|idx: int| start <= idx < start + 2 * len ==> -bin <= #[trigger] orig[idx]
                    <= bin,
                forall|idx: int| 0 <= idx < 256 ==> p@[idx] == (if start <= idx < j || start + len
                    <= idx < j + len {
                    target[idx]
                } else {
                    orig[idx]
                }),
                forall|idx: int| 0 <= idx < 256 ==> -(bin + 4456451) <= #[trigger] p@[idx] <= bin
                    + 4456451,
            decreases start + len - j,
        {
            let pj_len = p[j + len];
            proof {
                assert(-8380416 <= zeta <= 8380416);
                assert(-8380416 * bin <= zeta * pj_len <= 8380416 * bin) by (nonlinear_arith)
                    requires
                        -8380416 <= zeta <= 8380416,
                        -bin <= pj_len <= bin,
                        bin >= 0,
                ;
            }
            let t = montgomery_reduce(zeta * pj_len);
            proof {
                // 2^32 * t <= (Q-1) * bin + 2^54 + 2^32 < 2^32 * 4456451
                assert(t <= 4456450 && t >= -4456450);
            }
            let pj = p[j];
            p.set(j + len, pj - t);
            p.set(j, pj + t);
            j = j + 1;
        }
        proof {
            assert(p@ =~= target);
            assert(spec_ntt_blocks(orig, zetas@, k as int, len as int, start as int)
                == spec_ntt_blocks(target, zetas@, k + 1, len as int, start + 2 * len));
        }
        k = k + 1;
        b = b + 1;
        start = start + 2 * len;
    }
    proof {
        assert(start == 256) by (nonlinear_arith)
            requires
                start == blocks * (2 * len),
                blocks * (2 * len) == 256,
        ;
    }
    k
}

/// The forward number-theoretic transform of a polynomial.
pub fn ntt(p: &Vec<i64>) -> (r: Vec<i64>)
    requires
        p@.len() == 256,
        bounded(p@, 0x80_0000),
    ensures
        r@.len() == 256,
        r@ == spec_ntt(p@),
        bounded(r@, 44040216),
{
    let zetas = get_ntt_zetas();
    proof {
        assert(zetas@ =~= Seq::new(256, |i: int| spec_ntt_zeta(i)));
    }
    let mut result = vstd::slice::slice_to_vec(p.as_slice());
    let ghost zv = zetas@;
    let ghost s0 = result@;
    let k1 = ntt_stage(&mut result, &zetas, 0, 128, 1, Ghost(0x80_0000));
    let ghost s1 = result@;
    let k2 = ntt_stage(&mut result, &zetas, k1, 64, 2, Ghost(0x80_0000int + 4456451));
    let ghost s2 = result@;
    let k3 = ntt_stage(&mut result, &zetas, k2, 32, 4, Ghost(0x80_0000int + 2 * 4456451));
    let ghost s3 = result@;
    let k4 = ntt_stage(&mut result, &zetas, k3, 16, 8, Ghost(0x80_0000int + 3 * 4456451));
    let ghost s4 = result@;
    let k5 = ntt_stage(&mut result, &zetas, k4, 8, 16, Ghost(0x80_0000int + 4 * 4456451));
    let ghost s5 = result@;
    let k6 = ntt_stage(&mut result, &zetas, k5, 4, 32, Ghost(0x80_0000int + 5 * 4456451));
    let ghost s6 = result@;
    let k7 = ntt_stage(&mut result, &zetas, k6, 2, 64, Ghost(0x80_0000int + 6 * 4456451));
    let ghost s7 = result@;
    let _ = ntt_stage(&mut result, &zetas, k7, 1, 128, Ghost(0x80_0000int + 7 * 4456451));
    proof {
        assert(spec_ntt_stages(s0, zv, 0, 128) == spec_ntt_stages(s1, zv, 1, 64));
        assert(spec_ntt_stages(s1, zv, 1, 64) == spec_ntt_stages(s2, zv, 3, 32));
        assert(spec_ntt_stages(s2, zv, 3, 32) == spec_ntt_stages(s3, zv, 7, 16));
        assert(spec_ntt_stages(s3, zv, 7, 16) == spec_ntt_stages(s4, zv, 15, 8));
        assert(spec_ntt_stages(s4, zv, 15, 8) == spec_ntt_stages(s5, zv, 31, 4));
        assert(spec_ntt_stages(s5, zv, 31, 4) == spec_ntt_stages(s6, zv, 63, 2));
        assert(spec_ntt_stages(s6, zv, 63, 2) == spec_ntt_stages(s7, zv, 127, 1));
        assert(spec_ntt_stages(s7, zv, 127, 1) == spec_ntt_stages(result@, zv, 255, 0));
        assert(spec_ntt_stages(result@, zv, 255, 0) == result@);
    }
    result
}

/// One Gentleman-Sande butterfly block of the inverse transform.
pub open spec fn spec_ibf(p: Seq<i64>, zeta: i64, start: int, len: int) -> Seq<i64> {
    Seq::new(256, |idx: int|
        if start <= idx < start + len {
            (p[idx] + p[idx + len]) as i64
        } else if start + len <= idx < start + 2 * len {
            spec_montgomery_reduce((zeta * ((p[idx - len] - p[idx]) as i64)) as i64)
        } else {
            p[idx]
        })
}

/// All butterfly blocks of one inverse stage, from `start` on.
pub open spec fn spec_inv_ntt_blocks(p: Seq<i64>, zetas: Seq<i64>, k: int, len: int, start: int)
    -> Seq<i64>
    decreases 512 - start,
{
    if len < 1 || len > 128 || start < 0 || start >= 256 {
        p
    } else {
        spec_inv_ntt_blocks(spec_ibf(p, zetas[k], start, len), zetas, k + 1, len, start + 2
            * len)
    }
}

/// The inverse stages from width `len` up to 128.
pub open spec fn spec_inv_ntt_stages(p: Seq<i64>, zetas: Seq<i64>, k: int, len: int) -> Seq<i64>
    decreases 256 - len,
{
    if len < 1 || len > 128 {
        p
    } else {
        spec_inv_ntt_stages(spec_inv_ntt_blocks(p, zetas, k, len, 0), zetas, k + 128int / len, 2
            * len)
    }
}

/// The final scaling of the inverse transform by the ring degree's inverse.
pub open spec fn spec_inv_scale(p: Seq<i64>) -> Seq<i64> {
    Seq::new(256, |idx: int| spec_montgomery_reduce((N_INV_MONT * p[idx]) as i64))
}

/// The inverse number-theoretic transform.
pub open spec fn spec_inv_ntt(p: Seq<i64>) -> Seq<i64> {
    spec_inv_scale(spec_inv_ntt_stages(p, Seq::new(256, |i: int| spec_inv_ntt_zeta(i)), 0, 1))
}

/// One inverse stage: `blocks` butterfly blocks of width `2 * len`.
fn inv_ntt_stage(
    p: &mut Vec<i64>,
    zetas: &Vec<i64>,
    k0: usize,
    len: usize,
    blocks: usize,
    Ghost(bin): Ghost<int>,
) -> (k_end: usize)
    requires
        old(p)@.len() == 256,
        zetas@.len() == 256,
        bounded(zetas@, Q - 1),
        1 <= len <= 128,
        blocks * (2 * len) == 256,
        k0 + blocks <= 256,
        6291457 <= bin <= 0x8000_0000,
        bounded(old(p)@, bin),
    ensures
        final(p)@.len() == 256,
        final(p)@ == spec_inv_ntt_blocks(old(p)@, zetas@, k0 as int, len as int, 0),
        bounded(final(p)@, 2 * bin),
        k_end == k0 + blocks,
{
    let ghost stage_orig = p@;
    let mut k = k0;
    let mut b: usize = 0;
    let mut start: usize = 0;
    while b < blocks
        invariant
            p@.len() == 256,
            zetas@.len() == 256,
            bounded(zetas@, Q - 1),
            1 <= len <= 128,
            blocks * (2 * len) == 256,
            k0 + blocks <= 256,
            6291457 <= bin <= 0x8000_0000,
            b <= blocks,
            k == k0 + b,
            start == b * (2 * len),
            start <= 256,
            spec_inv_ntt_blocks(stage_orig, zetas@, k0 as int, len as int, 0)
                == spec_inv_ntt_blocks(p@, zetas@, k as int, len as int, start as int),
            forall|idx: int| 0 <= idx < 256 ==> -(2 * bin) <= #[trigger] p@[idx] <= 2 * bin,
            forall|idx: int| start <= idx < 256 ==> -bin <= #[trigger] p@[idx] <= bin,
        decreases blocks - b,
    {
        proof {
            assert((b + 1) * (2 * len) <= blocks * (2 * len)) by (nonlinear_arith)
                requires
                    b + 1 <= blocks,
                    len >= 1,
            ;
            assert((b + 1) * (2 * len) == b * (2 * len) + 2 * len) by (nonlinear_arith);
        }
        let zeta = zetas[k];
        let ghost orig = p@;
        let ghost target = spec_ibf(orig, zeta, start as int, len as int);
        let mut j = start;
        while j < start + len
            invariant
                p@.len() == 256,
                start <= j <= start + len,
                start + 2 * len <= 256,
                1 <= len <= 128,
                6291457 <= bin <= 0x8000_0000,
                -(Q - 1) <= zeta <= Q - 1,
                target == spec_ibf(orig, zeta, start as int, len as int),
                forall|idx: int| 0 <= idx < 256 ==> -(2 * bin) <= #[trigger] orig[idx] <= 2 * bin,
                forall|idx: int| start <= idx < start + 2 * len ==> -bin <= #[trigger] orig[idx]
                    <= bin,
                forall|idx: int| 0 <= idx < 256 ==> p@[idx] == (if start <= idx < j || start + len
                    <= idx < j + len {
                    target[idx]
                } else {
                    orig[idx]
                }),
                forall|idx: int| 0 <= idx < 256 ==> -(2 * bin) <= #[trigger] p@[idx] <= 2 * bin,
            decreases start + len - j,
        {
            let t = p[j];
            let pj_len = p[j + len];
            let diff = t - pj_len;
            proof {
                assert(-8380416 <= zeta <= 8380416);
                assert(-8380416 * (2 * bin) <= zeta * diff <= 8380416 * (2 * bin))
                    by (nonlinear_arith)
                    requires
                        -8380416 <= zeta <= 8380416,
                        -2 * bin <= diff <= 2 * bin,
                        bin >= 0,
                ;
            }
            p.set(j, t + pj_len);
            let m = montgomery_reduce(zeta * diff);
            proof {
                // 2^32 * m <= (Q-1) * 2 * bin + 2^54 + 2^32 <= 2^32 * 2 * bin
                // because bin >= 6291457.
                assert(8380416 * (2 * bin) + 0x40_0001_0000_0000 <= 0x1_0000_0000 * (2 * bin))
                    by (nonlinear_arith)
                    requires
                        6291457 <= bin,
                ;
            }
            p.set(j + len, m);
            j = j + 1;
        }
        proof {
            assert(p@ =~= target);
            assert(spec_inv_ntt_blocks(orig, zetas@, k as int, len as int, start as int)
                == spec_inv_ntt_blocks(target, zetas@, k + 1, len as int, start + 2 * len));
        }
        k = k + 1;
        b = b + 1;
        start = start + 2 * len;
    }
    proof {
        assert(start == 256) by (nonlinear_arith)
            requires
                start == blocks * (2 * len),
                blocks * (2 * len) == 256,
        ;
    }
    k
}

/// The inverse number-theoretic transform of a polynomial.
pub fn inv_ntt(p: &Vec<i64>) -> (r: Vec<i64>)
    requires
        p@.len() == 256,
        bounded(p@, 0x80_0000),
    ensures
        r@.len() == 256,
        r@ == spec_inv_ntt(p@),
        bounded(r@, 0x80_0000),
{
    let zetas = get_inv_ntt_zetas();
    proof {
        assert(zetas@ =~= Seq::new(256, |i: int| spec_inv_ntt_zeta(i)));
    }
    let mut result = vstd::slice::slice_to_vec(p.as_slice());
    let ghost zv = zetas@;
    let ghost s0 = result@;
    let k1 = inv_ntt_stage(&mut result, &zetas, 0, 1, 128, Ghost(0x80_0000));
    let ghost s1 = result@;
    let k2 = inv_ntt_stage(&mut result, &zetas, k1, 2, 64, Ghost(0x100_0000));
    let ghost s2 = result@;
    let k3 = inv_ntt_stage(&mut result, &zetas, k2, 4, 32, Ghost(0x200_0000));
    let ghost s3 = result@;
    let k4 = inv_ntt_stage(&mut result, &zetas, k3, 8, 16, Ghost(0x400_0000));
    let ghost s4 = result@;
    let k5 = inv_ntt_stage(&mut result, &zetas, k4, 16, 8, Ghost(0x800_0000));
    let ghost s5 = result@;
    let k6 = inv_ntt_stage(&mut result, &zetas, k5, 32, 4, Ghost(0x1000_0000));
    let ghost s6 = result@;
    let k7 = inv_ntt_stage(&mut result, &zetas, k6, 64, 2, Ghost(0x2000_0000));
    let ghost s7 = result@;
    let _ = inv_ntt_stage(&mut result, &zetas, k7, 128, 1, Ghost(0x4000_0000));
    proof {
        assert(spec_inv_ntt_stages(s0, zv, 0, 1) == spec_inv_ntt_stages(s1, zv, 128, 2));
        assert(spec_inv_ntt_stages(s1, zv, 128, 2) == spec_inv_ntt_stages(s2, zv, 192, 4));
        assert(spec_inv_ntt_stages(s2, zv, 192, 4) == spec_inv_ntt_stages(s3, zv, 224, 8));
        assert(spec_inv_ntt_stages(s3, zv, 224, 8) == spec_inv_ntt_stages(s4, zv, 240, 16));
        assert(spec_inv_ntt_stages(s4, zv, 240, 16) == spec_inv_ntt_stages(s5, zv, 248, 32));
        assert(spec_inv_ntt_stages(s5, zv, 248, 32) == spec_inv_ntt_stages(s6, zv, 252, 64));
        assert(spec_inv_ntt_stages(s6, zv, 252, 64) == spec_inv_ntt_stages(s7, zv, 254, 128));
        assert(spec_inv_ntt_stages(s7, zv, 254, 128) == spec_inv_ntt_stages(result@, zv, 255,
            256));
        assert(spec_inv_ntt_stages(result@, zv, 255, 256) == result@);
    }
    // Scale by the inverse of the ring degree, in Montgomery form.
    let ghost before_scale = result@;
    let mut i: usize = 0;
    while i < 256
        invariant
            result@.len() == 256,
            before_scale.len() == 256,
            i <= 256,
            forall|idx: int| i <= idx < 256 ==> result@[idx] == before_scale[idx],
            bounded(before_scale, 0x8000_0000),
            forall|idx: int| 0 <= idx < i ==> result@[idx] == spec_inv_scale(before_scale)[idx],
            forall|idx: int| 0 <= idx < i ==> -0x80_0000 <= #[trigger] result@[idx] <= 0x80_0000,
        decreases 256 - i,
    {
        let v = result[i];
        proof {
            assert(v == before_scale[i as int]);
            assert(-0x8000_0000 <= before_scale[i as int] <= 0x8000_0000);
            assert(-8347681 * 0x8000_0000 <= 8347681int * v <= 8347681 * 0x8000_0000)
                by (nonlinear_arith)
                requires
                    -0x8000_0000 <= v <= 0x8000_0000,
            ;
        }
        let m = montgomery_reduce(N_INV_MONT * v);
        proof {
            // 2^32 * m <= N_INV_MONT * 2^31 + 2^54 + 2^32 < 2^32 * 2^23.
            assert(m <= 0x80_0000 && m >= -0x80_0000);
        }
        result.set(i, m);
        i = i + 1;
    }
    proof {
        assert(result@ =~= spec_inv_scale(before_scale));
    }
    result
}

/// Coefficient-wise product of two polynomials in the transform domain,
/// with Montgomery reduction.
pub open spec fn spec_poly_mult_ntt(a: Seq<i64>, b: Seq<i64>) -> Seq<i64> {
    Seq::new(256, |i: int| spec_montgomery_reduce((a[i] * b[i]) as i64))
}

/// Pointwise multiplication in the transform domain.
pub fn poly_mult_ntt(a: &Vec<i64>, b: &Vec<i64>) -> (r: Vec<i64>)
    requires
        a@.len() == 256,
        b@.len() == 256,
        bounded(a@, 44040216),
        bounded(b@, 44040216),
    ensures
        r@.len() == 256,
        r@ == spec_poly_mult_ntt(a@, b@),
        bounded(r@, 0x80_0000),
{
    let mut result: Vec<i64> = Vec::new();
    let mut i: usize = 0;
    while i < 256
        invariant
            a@.len() == 256,
            b@.len() == 256,
            bounded(a@, 44040216),
            bounded(b@, 44040216),
            i <= 256,
            result@.len() == i,
            forall|j: int| 0 <= j < i ==> result@[j] == spec_poly_mult_ntt(a@, b@)[j],
            forall|j: int| 0 <= j < i ==> -0x80_0000 <= #[trigger] result@[j] <= 0x80_0000,
        decreases 256 - i,
    {
        let x = a[i];
        let y = b[i];
        proof {
            assert(-44040216 * 44040216 <= x * y <= 44040216 * 44040216) by (nonlinear_arith)
                requires
                    -44040216 <= x <= 44040216,
                    -44040216 <= y <= 44040216,
            ;
        }
        let m = montgomery_reduce(x * y);
        proof {
            // 2^32 * m <= 44040216^2 + 2^54 + 2^32 < 2^32 * 2^23.
            assert(m <= 0x80_0000 && m >= -0x80_0000);
        }
        result.push(m);
        i = i + 1;
    }
    proof {
        assert(result@ =~= spec_poly_mult_ntt(a@, b@));
    }
    result
}

/// A zero polynomial.
pub open spec fn spec_zero_poly() -> Seq<i64> {
    Seq::new(256, |i: int| 0i64)
}

/// Every polynomial of `v` has 256 coefficients within `[-b, b]`.
pub open spec fn vec_bounded(v: Seq<Seq<i64>>, b: int) -> bool {
    forall|k: int| 0 <= k < v.len() ==> (#[trigger] v[k]).len() == 256 && bounded(v[k], b)
}

/// Every polynomial held by `v` has 256 coefficients within `[-b, b]`.
pub open spec fn pvec_ok(v: Seq<Vec<i64>>, b: int) -> bool {
    forall|k: int| 0 <= k < v.len() ==> (#[trigger] v[k]@).len() == 256 && bounded(v[k]@, b)
}

/// The mathematical view of a vector of polynomials.
pub open spec fn polys_view(v: Seq<Vec<i64>>) -> Seq<Seq<i64>> {
    Seq::new(v.len(), |i: int| v[i]@)
}

/// The mathematical view of a matrix of polynomials.
pub open spec fn mat_view(a: Seq<Vec<Vec<i64>>>) -> Seq<Seq<Seq<i64>>> {
    Seq::new(a.len(), |i: int| polys_view(a[i]@))
}

/// The running sum of products of one matrix row with the transformed
/// response vector, reduced after each addition.
pub open spec fn spec_row_acc(row: Seq<Seq<i64>>, z_ntt: Seq<Seq<i64>>, l: int) -> Seq<i64>
    decreases l,
{
    if l <= 0 {
        spec_zero_poly()
    } else {
        let prev = spec_row_acc(row, z_ntt, l - 1);
        let prod = spec_poly_mult_ntt(spec_ntt(row[l - 1]), z_ntt[l - 1]);
        Seq::new(256, |i: int| spec_reduce_mod_q(prev[i] + prod[i]) as i64)
    }
}

/// Matrix-vector product in the transform domain, carried back out of it.
pub open spec fn spec_matrix_ntt_mult(a: Seq<Seq<Seq<i64>>>, z: Seq<Seq<i64>>) -> Seq<Seq<i64>> {
    let z_ntt = Seq::new(4, |l: int| spec_ntt(z[l]));
    Seq::new(4, |k: int| spec_inv_ntt(spec_row_acc(a[k], z_ntt, 4)))
}

/// Multiply the public matrix by the response vector, transforming in,
/// accumulating pointwise products, and transforming back out.
pub fn matrix_ntt_mult(a: &Vec<Vec<Vec<i64>>>, z: &Vec<Vec<i64>>) -> (r: Vec<Vec<i64>>)
    requires
        a@.len() == 4,
        forall|k: int| 0 <= k < 4 ==> (#[trigger] a@[k]@).len() == 4 && pvec_ok(a@[k]@,
            0x80_0000),
        z@.len() == 4,
        pvec_ok(z@, 0x80_0000),
    ensures
        r@.len() == 4,
        polys_view(r@) == spec_matrix_ntt_mult(mat_view(a@), polys_view(z@)),
        pvec_ok(r@, 0x80_0000),
{
    let ghost av = mat_view(a@);
    let ghost zv = polys_view(z@);
    let ghost z_ntt_spec = Seq::new(4, |l: int| spec_ntt(zv[l]));
    // Transform the response vector once.
    let mut z_ntt: Vec<Vec<i64>> = Vec::new();
    let mut l: usize = 0;
    while l < 4
        invariant
            z@.len() == 4,
            pvec_ok(z@, 0x80_0000),
            zv == polys_view(z@),
            z_ntt_spec == Seq::new(4, |m: int| spec_ntt(zv[m])),
            l <= 4,
            z_ntt@.len() == l,
            forall|m: int| 0 <= m < l ==> #[trigger] z_ntt@[m]@ == z_ntt_spec[m],
            pvec_ok(z_ntt@, 44040216),
        decreases 4 - l,
    {
        proof {
            assert(z@[l as int]@ == zv[l as int]);
        }
        z_ntt.push(ntt(&z[l]));
        l = l + 1;
    }
    let mut result: Vec<Vec<i64>> = Vec::new();
    let mut k: usize = 0;
    while k < 4
        invariant
            a@.len() == 4,
            forall|j: int| 0 <= j < 4 ==> (#[trigger] a@[j]@).len() == 4 && pvec_ok(a@[j]@,
                0x80_0000),
            av == mat_view(a@),
            z_ntt@.len() == 4,
            forall|m: int| 0 <= m < 4 ==> #[trigger] z_ntt@[m]@ == z_ntt_spec[m],
            pvec_ok(z_ntt@, 44040216),
            k <= 4,
            result@.len() == k,
            forall|j: int| 0 <= j < k ==> #[trigger] result@[j]@ == spec_inv_ntt(spec_row_acc(
                av[j], z_ntt_spec, 4)),
            pvec_ok(result@, 0x80_0000),
        decreases 4 - k,
    {
        let mut acc = vec![0i64; 256];
        proof {
            assert(acc@ =~= spec_zero_poly());
            assert(acc@ == spec_row_acc(av[k as int], z_ntt_spec, 0));
        }
        let mut l: usize = 0;
        while l < 4
            invariant
                a@.len() == 4,
                forall|j: int| 0 <= j < 4 ==> (#[trigger] a@[j]@).len() == 4 && pvec_ok(a@[j]@,
                    0x80_0000),
                av == mat_view(a@),
                z_ntt@.len() == 4,
                forall|m: int| 0 <= m < 4 ==> #[trigger] z_ntt@[m]@ == z_ntt_spec[m],
                pvec_ok(z_ntt@, 44040216),
                k < 4,
                l <= 4,
                acc@.len() == 256,
                acc@ == spec_row_acc(av[k as int], z_ntt_spec, l as int),
                bounded(acc@, Q - 1) || acc@ == spec_zero_poly(),
            decreases 4 - l,
        {
            proof {
                assert(a@[k as int]@[l as int]@ == av[k as int][l as int]);
                assert(z_ntt@[l as int]@ == z_ntt_spec[l as int]);
                assert(bounded(spec_zero_poly(), 0));
            }
            let a_ntt = ntt(&a[k][l]);
            let prod = poly_mult_ntt(&a_ntt, &z_ntt[l]);
            let ghost acc_prev = acc@;
            let mut i: usize = 0;
            while i < 256
                invariant
                    acc@.len() == 256,
                    acc_prev.len() == 256,
                    prod@.len() == 256,
                    bounded(prod@, 0x80_0000),
                    bounded(acc_prev, Q - 1) || bounded(acc_prev, 0),
                    i <= 256,
                    forall|m: int| i <= m < 256 ==> acc@[m] == acc_prev[m],
                    forall|m: int| 0 <= m < i ==> acc@[m] == spec_reduce_mod_q(acc_prev[m]
                        + prod@[m]) as i64,
                    forall|m: int| 0 <= m < i ==> 0 <= #[trigger] acc@[m] < Q,
                decreases 256 - i,
            {
                proof {
                    assert(acc@[i as int] == acc_prev[i as int]);
                    assert(-Q <= acc_prev[i as int] <= Q);
                    assert(-0x80_0000 <= prod@[i as int] <= 0x80_0000);
                }
                let s = acc[i] + prod[i];
                acc.set(i, reduce_mod_q(s));
                i = i + 1;
            }
            proof {
                assert(acc@ =~= Seq::new(256, |m: int| spec_reduce_mod_q(acc_prev[m] + prod@[
                    m]) as i64));
            }
            l = l + 1;
        }
        result.push(inv_ntt(&acc));
        k = k + 1;
    }
    proof {
        assert(polys_view(result@) =~~= spec_matrix_ntt_mult(av, zv));
    }
    result
}

/// Product of each polynomial of a vector with one scalar polynomial.
pub open spec fn spec_poly_vec_mult_scalar(v: Seq<Seq<i64>>, s: Seq<i64>) -> Seq<Seq<i64>> {
    Seq::new(4, |k: int| spec_inv_ntt(spec_poly_mult_ntt(spec_ntt(v[k]), spec_ntt(s))))
}

/// Multiply each polynomial of the vector by the scalar polynomial.
pub fn poly_vec_mult_scalar(v: &Vec<Vec<i64>>, s: &Vec<i64>) -> (r: Vec<Vec<i64>>)
    requires
        v@.len() == 4,
        pvec_ok(v@, 0x80_0000),
        s@.len() == 256,
        bounded(s@, 0x80_0000),
    ensures
        r@.len() == 4,
        polys_view(r@) == spec_poly_vec_mult_scalar(polys_view(v@), s@),
        pvec_ok(r@, 0x80_0000),
{
    let ghost vv = polys_view(v@);
    let s_ntt = ntt(s);
    let mut r: Vec<Vec<i64>> = Vec::new();
    let mut k: usize = 0;
    while k < 4
        invariant
            v@.len() == 4,
            pvec_ok(v@, 0x80_0000),
            vv == polys_view(v@),
            s_ntt@.len() == 256,
            s_ntt@ == spec_ntt(s@),
            bounded(s_ntt@, 44040216),
            k <= 4,
            r@.len() == k,
            forall|j: int| 0 <= j < k ==> #[trigger] r@[j]@ == spec_inv_ntt(spec_poly_mult_ntt(
                spec_ntt(vv[j]), spec_ntt(s@))),
            pvec_ok(r@, 0x80_0000),
        decreases 4 - k,
    {
        proof {
            assert(v@[k as int]@ == vv[k as int]);
        }
        let v_ntt = ntt(&v[k]);
        r.push(inv_ntt(&poly_mult_ntt(&v_ntt, &s_ntt)));
        k = k + 1;
    }
    proof {
        assert(polys_view(r@) =~~= spec_poly_vec_mult_scalar(vv, s@));
    }
    r
}

/// Each coefficient multiplied by `2^d` and reduced.
pub open spec fn spec_poly_vec_shift(v: Seq<Seq<i64>>, d: int) -> Seq<Seq<i64>> {
    Seq::new(4, |k: int| Seq::new(256, |i: int| spec_reduce_mod_q(v[k][i] * (1i64 << (
        d as u64))) as i64))
}

/// Shift every coefficient left by `d` bits, reducing modulo the ring
/// modulus.
pub fn poly_vec_shift(v: &Vec<Vec<i64>>, d: usize) -> (r: Vec<Vec<i64>>)
    requires
        v@.len() == 4,
        pvec_ok(v@, 0x80_0000),
        d < 32,
    ensures
        r@.len() == 4,
        polys_view(r@) == spec_poly_vec_shift(polys_view(v@), d as int),
        pvec_ok(r@, 0x80_0000),
{
    let ghost vv = polys_view(v@);
    let shift = 1i64 << (d as u64);
    proof {
        let dd = d as u64;
        assert(dd < 32 ==> 1i64 <= (1i64 << dd) <= 0x8000_0000i64) by (bit_vector);
    }
    let mut r: Vec<Vec<i64>> = Vec::new();
    let mut k: usize = 0;
    while k < 4
        invariant
            v@.len() == 4,
            pvec_ok(v@, 0x80_0000),
            vv == polys_view(v@),
            1 <= shift <= 0x8000_0000,
            shift == 1i64 << (d as u64),
            d < 32,
            k <= 4,
            r@.len() == k,
            forall|j: int| 0 <= j < k ==> #[trigger] r@[j]@ == spec_poly_vec_shift(vv, d as int)[
                j],
            pvec_ok(r@, 0x80_0000),
        decreases 4 - k,
    {
        let mut p: Vec<i64> = Vec::new();
        let mut i: usize = 0;
        while i < 256
            invariant
                v@.len() == 4,
                pvec_ok(v@, 0x80_0000),
                vv == polys_view(v@),
                1 <= shift <= 0x8000_0000,
                shift == 1i64 << (d as u64),
                k < 4,
                i <= 256,
                p@.len() == i,
                forall|m: int| 0 <= m < i ==> p@[m] == spec_reduce_mod_q(vv[k as int][m] * (1i64
                    << (d as u64))) as i64,
                forall|m: int| 0 <= m < i ==> 0 <= #[trigger] p@[m] < Q,
            decreases 256 - i,
        {
            let c = v[k][i];
            proof {
                assert(v@[k as int]@ == vv[k as int]);
                assert(-0x80_0000 * 0x8000_0000 <= c * shift <= 0x80_0000 * 0x8000_0000)
                    by (nonlinear_arith)
                    requires
                        -0x80_0000 <= c <= 0x80_0000,
                        1 <= shift <= 0x8000_0000,
                ;
            }
            p.push(reduce_mod_q(c * shift));
            i = i + 1;
        }
        proof {
            assert(p@ =~= spec_poly_vec_shift(vv, d as int)[k as int]);
        }
        r.push(p);
        k = k + 1;
    }
    proof {
        assert(polys_view(r@) =~~= spec_poly_vec_shift(vv, d as int));
    }
    r
}

/// Coefficient-wise difference, reduced.
pub open spec fn spec_poly_vec_sub(a: Seq<Seq<i64>>, b: Seq<Seq<i64>>) -> Seq<Seq<i64>> {
    Seq::new(4, |k: int| Seq::new(256, |i: int| spec_reduce_mod_q(a[k][i] - b[k][i]) as i64))
}

/// Subtract one polynomial vector from another, reducing each coefficient.
pub fn poly_vec_sub(a: &Vec<Vec<i64>>, b: &Vec<Vec<i64>>) -> (r: Vec<Vec<i64>>)
    requires
        a@.len() == 4,
        pvec_ok(a@, 0x80_0000),
        b@.len() == 4,
        pvec_ok(b@, 0x80_0000),
    ensures
        r@.len() == 4,
        polys_view(r@) == spec_poly_vec_sub(polys_view(a@), polys_view(b@)),
        pvec_ok(r@, 0x80_0000),
{
    let ghost av = polys_view(a@);
    let ghost bv = polys_view(b@);
    let mut r: Vec<Vec<i64>> = Vec::new();
    let mut k: usize = 0;
    while k < 4
        invariant
            a@.len() == 4,
            pvec_ok(a@, 0x80_0000),
            av == polys_view(a@),
            b@.len() == 4,
            pvec_ok(b@, 0x80_0000),
            bv == polys_view(b@),
            k <= 4,
            r@.len() == k,
            forall|j: int| 0 <= j < k ==> #[trigger] r@[j]@ == spec_poly_vec_sub(av, bv)[j],
            pvec_ok(r@, 0x80_0000),
        decreases 4 - k,
    {
        let mut p: Vec<i64> = Vec::new();
        let mut i: usize = 0;
        while i < 256
            invariant
                a@.len() == 4,
                pvec_ok(a@, 0x80_0000),
                av == polys_view(a@),
                b@.len() == 4,
                pvec_ok(b@, 0x80_0000),
                bv == polys_view(b@),
                k < 4,
                i <= 256,
                p@.len() == i,
                forall|m: int| 0 <= m < i ==> p@[m] == spec_reduce_mod_q(av[k as int][m] - bv[
                    k as int][m]) as i64,
                forall|m: int| 0 <= m < i ==> 0 <= #[trigger] p@[m] < Q,
            decreases 256 - i,
        {
            proof {
                assert(a@[k as int]@ == av[k as int]);
                assert(b@[k as int]@ == bv[k as int]);
            }
            p.push(reduce_mod_q(a[k][i] - b[k][i]));
            i = i + 1;
        }
        proof {
            assert(p@ =~= spec_poly_vec_sub(av, bv)[k as int]);
        }
        r.push(p);
        k = k + 1;
    }
    proof {
        assert(polys_view(r@) =~~= spec_poly_vec_sub(av, bv));
    }
    r
}

} // verus!
