//! Parsing of the packed Dilithium2 wire formats: the 10-bit packed
//! commitment vector of a public key, the 18-bit packed response vector of a
//! signature, and its sparse hint encoding.

use vstd::prelude::*;

use crate::params::{GAMMA1, MLDSA_PUBLIC_KEY_SIZE, MLDSA_SIGNATURE_SIZE};
use crate::poly::{bounded, pvec_ok, polys_view};

verus! {

/// One 10-bit coefficient of the packed commitment vector.
pub open spec fn spec_t1_coeff(bytes: Seq<u8>, k: int, i: int) -> i64 {
    let off = (k * 64 + i / 4) * 5;
    let b0 = bytes[off] as u32;
    let b1 = bytes[off + 1] as u32;
    let b2 = bytes[off + 2] as u32;
    let b3 = bytes[off + 3] as u32;
    let b4 = bytes[off + 4] as u32;
    if i % 4 == 0 {
        (b0 | ((b1 & 0x03) << 8)) as i64
    } else if i % 4 == 1 {
        ((b1 >> 2) | ((b2 & 0x0F) << 6)) as i64
    } else if i % 4 == 2 {
        ((b2 >> 4) | ((b3 & 0x3F) << 4)) as i64
    } else {
        ((b3 >> 6) | (b4 << 2)) as i64
    }
}

/// The commitment vector a 10-bit packed byte string holds.
pub open spec fn spec_unpack_t1(bytes: Seq<u8>) -> Seq<Seq<i64>> {
    Seq::new(4, |k: int| Seq::new(256, |i: int| spec_t1_coeff(bytes, k, i)))
}

/// Unpack the commitment vector from its 10-bit packed format. Succeeds
/// exactly when the input holds the full 1280 packed bytes.
pub fn unpack_t1(bytes: &[u8]) -> (r: Option<Vec<Vec<i64>>>)
    ensures
        r is Some <==> bytes@.len() >= 1280,
        match r {
            Some(t1) => {
                &&& t1@.len() == 4
                &&& polys_view(t1@) == spec_unpack_t1(bytes@)
                &&& pvec_ok(t1@, 1023)
            },
            None => true,
        },
{
    let n = bytes.len();
    let mut t1: Vec<Vec<i64>> = Vec::new();
    let mut offset: usize = 0;
    let mut k: usize = 0;
    while k < 4
        invariant
            n == bytes@.len(),
            k <= 4,
            offset == k * 320,
            offset > 0 ==> n >= offset,
            t1@.len() == k,
            forall|j: int| 0 <= j < k ==> #[trigger] t1@[j]@ == spec_unpack_t1(bytes@)[j],
            pvec_ok(t1@, 1023),
        decreases 4 - k,
    {
        let mut row: Vec<i64> = Vec::new();
        let mut i: usize = 0;
        while i < 256
            invariant
                n == bytes@.len(),
                k < 4,
                i <= 256,
                i % 4 == 0,
                offset == (k * 64 + i / 4) * 5,
                offset > 0 ==> n >= offset,
                row@.len() == i,
                forall|m: int| 0 <= m < i ==> row@[m] == spec_t1_coeff(bytes@, k as int, m),
                bounded(row@, 1023),
            decreases 256 - i,
        {
            if offset + 5 > bytes.len() {
                return None;
            }
            let b0 = bytes[offset] as u32;
            let b1 = bytes[offset + 1] as u32;
            let b2 = bytes[offset + 2] as u32;
            let b3 = bytes[offset + 3] as u32;
            let b4 = bytes[offset + 4] as u32;
            proof {
                assert((b0 | ((b1 & 0x03) << 8)) <= 1023 && ((b1 >> 2) | ((b2 & 0x0F) << 6))
                    <= 1023 && ((b2 >> 4) | ((b3 & 0x3F) << 4)) <= 1023 && ((b3 >> 6) | (b4
                    << 2)) <= 1023) by (bit_vector)
                    requires
                        b0 <= 255 && b1 <= 255 && b2 <= 255 && b3 <= 255 && b4 <= 255,
                ;
            }
            row.push((b0 | ((b1 & 0x03) << 8)) as i64);
            row.push(((b1 >> 2) | ((b2 & 0x0F) << 6)) as i64);
            row.push(((b2 >> 4) | ((b3 & 0x3F) << 4)) as i64);
            row.push(((b3 >> 6) | (b4 << 2)) as i64);
            offset = offset + 5;
            i = i + 4;
        }
        proof {
            assert(row@ =~= spec_unpack_t1(bytes@)[k as int]);
        }
        t1.push(row);
        k = k + 1;
    }
    proof {
        assert(polys_view(t1@) =~= spec_unpack_t1(bytes@));
    }
    Some(t1)
}

/// The 72-bit group a response coefficient is read from.
pub open spec fn spec_z_group(bytes: Seq<u8>, off: int) -> u128 {
    (bytes[off] as u128) | ((bytes[off + 1] as u128) << 8) | ((bytes[off + 2] as u128) << 16) | ((
    bytes[off + 3] as u128) << 24) | ((bytes[off + 4] as u128) << 32) | ((bytes[off + 5] as u128)
        << 40) | ((bytes[off + 6] as u128) << 48) | ((bytes[off + 7] as u128) << 56) | ((bytes[
    off + 8] as u128) << 64)
}

/// One response coefficient, centered at the coefficient range bound.
pub open spec fn spec_z_coeff(bytes: Seq<u8>, l: int, i: int) -> i64 {
    let off = (l * 64 + i / 4) * 9;
    let val = spec_z_group(bytes, off);
    let coef = ((val >> (((i % 4) * 18) as u128)) as u64) & 0x3FFFF;
    (GAMMA1 - coef as i64) as i64
}

/// The response vector an 18-bit packed byte string holds.
pub open spec fn spec_unpack_z(bytes: Seq<u8>) -> Seq<Seq<i64>> {
    Seq::new(4, |l: int| Seq::new(256, |i: int| spec_z_coeff(bytes, l, i)))
}

/// Unpack the response vector from its 18-bit packed format, centered at
/// the coefficient range bound. Succeeds exactly when the input holds the
/// full 2304 packed bytes.
pub fn unpack_z(bytes: &[u8]) -> (r: Option<Vec<Vec<i64>>>)
    ensures
        r is Some <==> bytes@.len() >= 2304,
        match r {
            Some(z) => {
                &&& z@.len() == 4
                &&& polys_view(z@) == spec_unpack_z(bytes@)
                &&& pvec_ok(z@, 0x80_0000)
            },
            None => true,
        },
{
    let n = bytes.len();
    let mut z: Vec<Vec<i64>> = Vec::new();
    let mut offset: usize = 0;
    let mut l: usize = 0;
    while l < 4
        invariant
            n == bytes@.len(),
            l <= 4,
            offset == l * 576,
            offset > 0 ==> n >= offset,
            z@.len() == l,
            forall|j: int| 0 <= j < l ==> #[trigger] z@[j]@ == spec_unpack_z(bytes@)[j],
            pvec_ok(z@, 0x80_0000),
        decreases 4 - l,
    {
        let mut row: Vec<i64> = Vec::new();
        let mut i: usize = 0;
        while i < 256
            invariant
                n == bytes@.len(),
                l < 4,
                i <= 256,
                i % 4 == 0,
                offset == (l * 64 + i / 4) * 9,
                offset > 0 ==> n >= offset,
                row@.len() == i,
                forall|m: int| 0 <= m < i ==> row@[m] == spec_z_coeff(bytes@, l as int, m),
                bounded(row@, 0x80_0000),
            decreases 256 - i,
        {
            if offset + 9 > bytes.len() {
                return None;
            }
            let val = (bytes[offset] as u128) | ((bytes[offset + 1] as u128) << 8) | ((bytes[
                offset + 2] as u128) << 16) | ((bytes[offset + 3] as u128) << 24) | ((bytes[offset
                + 4] as u128) << 32) | ((bytes[offset + 5] as u128) << 40) | ((bytes[offset
                + 6] as u128) << 48) | ((bytes[offset + 7] as u128) << 56) | ((bytes[offset
                + 8] as u128) << 64);
            let mut j: usize = 0;
            while j < 4
                invariant
                    n == bytes@.len(),
                    l < 4,
                    i + 4 <= 256,
                    i % 4 == 0,
                    offset == (l * 64 + i / 4) * 9,
                    val == spec_z_group(bytes@, offset as int),
                    j <= 4,
                    row@.len() == i + j,
                    forall|m: int| 0 <= m < i + j ==> row@[m] == spec_z_coeff(bytes@, l as int,
                        m),
                    bounded(row@, 0x80_0000),
                decreases 4 - j,
            {
                let shifted = #[verifier::truncate] ((val >> ((j * 18) as u128)) as u64);
                let coef = shifted & 0x3FFFF;
                proof {
                    let sv = shifted;
                    assert(sv & 0x3FFFF <= 0x3FFFF) by (bit_vector);
                    assert((i + j) % 4 == j % 4);
                    assert((i + j) / 4 == i / 4);
                }
                row.push(GAMMA1 - coef as i64);
                j = j + 1;
            }
            offset = offset + 9;
            i = i + 4;
        }
        proof {
            assert(row@ =~= spec_unpack_z(bytes@)[l as int]);
        }
        z.push(row);
        l = l + 1;
    }
    proof {
        assert(polys_view(z@) =~= spec_unpack_z(bytes@));
    }
    Some(z)
}

/// A hint row with no positions set.
pub open spec fn spec_empty_row() -> Seq<bool> {
    Seq::new(256, |i: int| false)
}

/// The view of a vector of hint rows.
pub open spec fn rows_view(v: Seq<Vec<bool>>) -> Seq<Seq<bool>> {
    Seq::new(v.len(), |i: int| v[i]@)
}

/// The hint count of row `k`, read from the trailing count bytes.
pub open spec fn spec_hint_count(bytes: Seq<u8>, omega: int, k: int) -> int {
    if k == 0 {
        bytes[omega] as int
    } else {
        bytes[omega - 4 + k] as int
    }
}

/// Apply `count` hint positions to a row, reading one position byte per
/// hint; fails when the positions run past the count area.
pub open spec fn spec_apply_row(bytes: Seq<u8>, omega: int, row: Seq<bool>, offset: int, count:
    int) -> Option<(Seq<bool>, int)>
    decreases count,
{
    if count <= 0 {
        Some((row, offset))
    } else if offset >= omega {
        None
    } else {
        spec_apply_row(bytes, omega, row.update(bytes[offset] as int, true), offset + 1, count
            - 1)
    }
}

/// Decode the hint rows from `k` on, threading the position offset.
pub open spec fn spec_rows_from(bytes: Seq<u8>, omega: int, acc: Seq<Seq<bool>>, k: int, offset:
    int) -> Option<Seq<Seq<bool>>>
    decreases 4 - k,
{
    if k >= 4 {
        Some(acc)
    } else {
        match spec_apply_row(bytes, omega, spec_empty_row(), offset, spec_hint_count(bytes,
            omega, k)) {
            Some(ro) => spec_rows_from(bytes, omega, acc.push(ro.0), k + 1, ro.1),
            None => None,
        }
    }
}

/// The hint rows a sparse hint encoding holds, if it is well-formed.
pub open spec fn spec_unpack_hints(bytes: Seq<u8>) -> Option<Seq<Seq<bool>>> {
    if bytes.len() == 0 {
        Some(Seq::new(4, |k: int| spec_empty_row()))
    } else if bytes.len() < 5 {
        None
    } else {
        spec_rows_from(bytes, bytes.len() - 1, Seq::empty(), 0, 0)
    }
}

/// Decode the sparse hint encoding: per-row counts in the trailing bytes,
/// hint positions in the leading bytes.
pub fn unpack_hints(bytes: &[u8]) -> (r: Option<Vec<Vec<bool>>>)
    ensures
        r is Some <==> spec_unpack_hints(bytes@) is Some,
        match r {
            Some(hints) => {
                &&& hints@.len() == 4
                &&& forall|k: int| 0 <= k < 4 ==> (#[trigger] hints@[k]@).len() == 256
                &&& Some(rows_view(hints@)) == spec_unpack_hints(bytes@)
            },
            None => true,
        },
{
    let n = bytes.len();
    let mut rows: Vec<Vec<bool>> = Vec::new();
    if n == 0 {
        let mut k: usize = 0;
        while k < 4
            invariant
                k <= 4,
                rows@.len() == k,
                forall|j: int| 0 <= j < k ==> #[trigger] rows@[j]@ == spec_empty_row(),
            decreases 4 - k,
        {
            let row = vec![false; 256];
            proof {
                assert(row@ =~= spec_empty_row());
            }
            rows.push(row);
            k = k + 1;
        }
        proof {
            assert(rows_view(rows@) =~= Seq::new(4, |k: int| spec_empty_row()));
        }
        return Some(rows);
    }
    let omega = n - 1;
    if omega < 4 {
        return None;
    }
    let mut offset: usize = 0;
    let mut k: usize = 0;
    proof {
        assert(rows_view(rows@) =~= Seq::<Seq<bool>>::empty());
    }
    while k < 4
        invariant
            n == bytes@.len(),
            n >= 5,
            omega == n - 1,
            offset <= omega,
            k <= 4,
            rows@.len() == k,
            forall|j: int| 0 <= j < k ==> (#[trigger] rows@[j]@).len() == 256,
            spec_unpack_hints(bytes@) == spec_rows_from(bytes@, omega as int, rows_view(rows@),
                k as int, offset as int),
        decreases 4 - k,
    {
        let count = if k == 0 {
            bytes[omega]
        } else {
            bytes[omega - 4 + k]
        };
        let mut row = vec![false; 256];
        proof {
            assert(row@ =~= spec_empty_row());
        }
        let ghost row0 = row@;
        let ghost off0 = offset as int;
        let mut c: usize = 0;
        while c < count as usize
            invariant
                n == bytes@.len(),
                n >= 5,
                omega == n - 1,
                offset <= omega,
                k < 4,
                c <= count,
                row@.len() == 256,
                row0 == spec_empty_row(),
                count as int == spec_hint_count(bytes@, omega as int, k as int),
                spec_unpack_hints(bytes@) == spec_rows_from(bytes@, omega as int, rows_view(
                    rows@), k as int, off0),
                spec_apply_row(bytes@, omega as int, row0, off0, count as int) == spec_apply_row(
                    bytes@, omega as int, row@, offset as int, count as int - c),
            decreases count as int - c,
        {
            if offset >= omega {
                proof {
                    assert(spec_apply_row(bytes@, omega as int, row@, offset as int,
                        count as int - c) is None);
                }
                return None;
            }
            let idx = bytes[offset] as usize;
            proof {
                assert(idx <= 255);
            }
            if idx >= 256 {
                return None;
            }
            row.set(idx, true);
            offset = offset + 1;
            c = c + 1;
        }
        proof {
            assert(spec_apply_row(bytes@, omega as int, row@, offset as int, 0) == Some((row@,
                offset as int)));
            assert(rows_view(rows@.push(row)) =~= rows_view(rows@).push(row@));
        }
        rows.push(row);
        k = k + 1;
    }
    proof {
        assert(spec_rows_from(bytes@, omega as int, rows_view(rows@), 4, offset as int) == Some(
            rows_view(rows@)));
    }
    Some(rows)
}

/// Parse a public key into its expansion seed and packed commitment
/// vector. Succeeds exactly on inputs of the public key size.
pub fn parse_public_key(pk: &[u8]) -> (r: Option<(Vec<u8>, Vec<Vec<i64>>)>)
    ensures
        r is Some <==> pk@.len() == MLDSA_PUBLIC_KEY_SIZE,
        match r {
            Some(parts) => {
                &&& parts.0@ == pk@.subrange(0, 32)
                &&& parts.1@.len() == 4
                &&& polys_view(parts.1@) == spec_unpack_t1(pk@.subrange(32,
                    MLDSA_PUBLIC_KEY_SIZE as int))
                &&& pvec_ok(parts.1@, 1023)
            },
            None => true,
        },
{
    if pk.len() != MLDSA_PUBLIC_KEY_SIZE {
        return None;
    }
    let rho = vstd::slice::slice_to_vec(vstd::slice::slice_subrange(pk, 0, 32));
    let t1_bytes = vstd::slice::slice_subrange(pk, 32, MLDSA_PUBLIC_KEY_SIZE);
    match unpack_t1(t1_bytes) {
        Some(t1) => Some((rho, t1)),
        None => None,
    }
}

/// Parse a signature into its challenge seed, packed response vector and
/// hint rows. Succeeds exactly on inputs of the signature size whose hint
/// area is well-formed.
pub fn parse_signature(sig: &[u8]) -> (r: Option<(Vec<u8>, Vec<Vec<i64>>, Vec<Vec<bool>>)>)
    ensures
        r is Some <==> sig@.len() == MLDSA_SIGNATURE_SIZE && spec_unpack_hints(sig@.subrange(
            2336, MLDSA_SIGNATURE_SIZE as int)) is Some,
        match r {
            Some(parts) => {
                &&& parts.0@ == sig@.subrange(0, 32)
                &&& parts.1@.len() == 4
                &&& polys_view(parts.1@) == spec_unpack_z(sig@.subrange(32, 2336))
                &&& pvec_ok(parts.1@, 0x80_0000)
                &&& parts.2@.len() == 4
                &&& (forall|k: int| 0 <= k < 4 ==> (#[trigger] parts.2@[k]@).len() == 256)
                &&& Some(rows_view(parts.2@)) == spec_unpack_hints(sig@.subrange(2336,
                    MLDSA_SIGNATURE_SIZE as int))
            },
            None => true,
        },
{
    if sig.len() != MLDSA_SIGNATURE_SIZE {
        return None;
    }
    let c_tilde = vstd::slice::slice_to_vec(vstd::slice::slice_subrange(sig, 0, 32));
    let z_bytes = vstd::slice::slice_subrange(sig, 32, 2336);
    let z = match unpack_z(z_bytes) {
        Some(z) => z,
        None => {
            return None;
        },
    };
    let hint_bytes = vstd::slice::slice_subrange(sig, 2336, MLDSA_SIGNATURE_SIZE);
    match unpack_hints(hint_bytes) {
        Some(hints) => Some((c_tilde, z, hints)),
        None => None,
    }
}

} // verus!
