//! Canonical byte serialization of the pipeline's records: what crosses the
//! host boundary into the guest and what a consumer of a proof's public
//! values must be able to read back independently. Parsing a serialized
//! record returns exactly the record, proved below.

use vstd::prelude::*;
use vstd::slice::SliceAdditionalExecFns;

use crate::keccak::spec_le32;
use crate::merkle::spec_le64;
use crate::types::{RemlProofBundle, RemlProofOutput, SignatureRequest};

verus! {

/// Largest variable length the codec accepts, so that offsets stay within
/// machine integers.
pub const MAX_FIELD_LEN: usize = 0x0FFF_FFFF;

/// The 32-bit little-endian value at `off`.
pub open spec fn spec_read_le32(b: Seq<u8>, off: int) -> u32 {
    (b[off] as u32) | ((b[off + 1] as u32) << 8) | ((b[off + 2] as u32) << 16) | ((b[off
        + 3] as u32) << 24)
}

/// The 64-bit little-endian value at `off`.
pub open spec fn spec_read_le64(b: Seq<u8>, off: int) -> u64 {
    (b[off] as u64) | ((b[off + 1] as u64) << 8) | ((b[off + 2] as u64) << 16) | ((b[off
        + 3] as u64) << 24) | ((b[off + 4] as u64) << 32) | ((b[off + 5] as u64) << 40) | ((b[
    off + 6] as u64) << 48) | ((b[off + 7] as u64) << 56)
}

/// Reading back the little-endian bytes of a 32-bit value gives the value.
proof fn lemma_le32_read(b: Seq<u8>, off: int, v: u32)
    requires
        0 <= off,
        off + 4 <= b.len(),
        b.subrange(off, off + 4) == spec_le32(v),
    ensures
        spec_read_le32(b, off) == v,
{
    assert(b[off] == spec_le32(v)[0] && b[off + 1] == spec_le32(v)[1] && b[off + 2] == spec_le32(
        v)[2] && b[off + 3] == spec_le32(v)[3]) by {
        assert(b.subrange(off, off + 4)[0] == b[off]);
        assert(b.subrange(off, off + 4)[1] == b[off + 1]);
        assert(b.subrange(off, off + 4)[2] == b[off + 2]);
        assert(b.subrange(off, off + 4)[3] == b[off + 3]);
    }
    assert((((v & 0xff) as u8) as u32) | (((((v >> 8) & 0xff) as u8) as u32) << 8) | (((((v
        >> 16) & 0xff) as u8) as u32) << 16) | (((((v >> 24) & 0xff) as u8) as u32) << 24)
        == v) by (bit_vector);
}

/// Reading back the little-endian bytes of a 64-bit value gives the value.
proof fn lemma_le64_read(b: Seq<u8>, off: int, v: u64)
    requires
        0 <= off,
        off + 8 <= b.len(),
        b.subrange(off, off + 8) == spec_le64(v),
    ensures
        spec_read_le64(b, off) == v,
{
    assert forall|j: int| 0 <= j < 8 implies b[off + j] == spec_le64(v)[j] by {
        assert(b.subrange(off, off + 8)[j] == b[off + j]);
    }
    let b0 = b[off];
    let b1 = b[off + 1];
    let b2 = b[off + 2];
    let b3 = b[off + 3];
    let b4 = b[off + 4];
    let b5 = b[off + 5];
    let b6 = b[off + 6];
    let b7 = b[off + 7];
    assert(b0 == spec_le64(v)[0] && b1 == spec_le64(v)[1] && b2 == spec_le64(v)[2] && b3
        == spec_le64(v)[3] && b4 == spec_le64(v)[4] && b5 == spec_le64(v)[5] && b6 == spec_le64(
        v)[6] && b7 == spec_le64(v)[7]);
    assert((b0 as u64) | ((b1 as u64) << 8) | ((b2 as u64) << 16) | ((b3 as u64) << 24) | ((
    b4 as u64) << 32) | ((b5 as u64) << 40) | ((b6 as u64) << 48) | ((b7 as u64) << 56) == v)
        by (bit_vector)
        requires
            b0 == ((v >> 0u64) & 0xff) as u8,
            b1 == ((v >> 8u64) & 0xff) as u8,
            b2 == ((v >> 16u64) & 0xff) as u8,
            b3 == ((v >> 24u64) & 0xff) as u8,
            b4 == ((v >> 32u64) & 0xff) as u8,
            b5 == ((v >> 40u64) & 0xff) as u8,
            b6 == ((v >> 48u64) & 0xff) as u8,
            b7 == ((v >> 56u64) & 0xff) as u8,
    ;
}

/// The canonical bytes of a signature request.
pub open spec fn spec_ser_request(msg: Seq<u8>, pk: Seq<u8>, sig: Seq<u8>, id: u64) -> Seq<u8> {
    msg + spec_le32(pk.len() as u32) + pk + spec_le32(sig.len() as u32) + sig + spec_le64(id)
}

/// The record a byte string holds, when it is exactly one canonical
/// signature request.
pub open spec fn spec_parse_request(b: Seq<u8>) -> Option<(Seq<u8>, Seq<u8>, Seq<u8>, u64)> {
    if b.len() < 36 {
        None
    } else {
        let pk_len = spec_read_le32(b, 32) as int;
        if pk_len > MAX_FIELD_LEN || b.len() < 36 + pk_len + 4 {
            None
        } else {
            let sig_len = spec_read_le32(b, 36 + pk_len) as int;
            if sig_len > MAX_FIELD_LEN || b.len() != 36 + pk_len + 4 + sig_len + 8 {
                None
            } else {
                Some((b.subrange(0, 32), b.subrange(36, 36 + pk_len), b.subrange(40 + pk_len, 40
                    + pk_len + sig_len), spec_read_le64(b, 40 + pk_len + sig_len)))
            }
        }
    }
}

/// Append the little-endian bytes of a 32-bit value.
fn push_le32(out: &mut Vec<u8>, v: u32)
    ensures
        final(out)@ == old(out)@ + spec_le32(v),
{
    proof {
        let c = v;
        assert(c & 0xff < 256 && (c >> 8) & 0xff < 256 && (c >> 16) & 0xff < 256 && (c >> 24)
            & 0xff < 256) by (bit_vector);
    }
    out.push((v & 0xff) as u8);
    out.push(((v >> 8) & 0xff) as u8);
    out.push(((v >> 16) & 0xff) as u8);
    out.push(((v >> 24) & 0xff) as u8);
    proof {
        assert(out@ =~= old(out)@ + spec_le32(v));
    }
}

/// Append the little-endian bytes of a 64-bit value.
fn push_le64(out: &mut Vec<u8>, v: u64)
    ensures
        final(out)@ == old(out)@ + spec_le64(v),
{
    let mut b: usize = 0;
    while b < 8
        invariant
            b <= 8,
            out@.len() == old(out)@.len() + b,
            forall|j: int| 0 <= j < old(out)@.len() ==> out@[j] == old(out)@[j],
            forall|j: int| 0 <= j < b ==> out@[old(out)@.len() + j] == spec_le64(v)[j],
        decreases 8 - b,
    {
        let sh = (b as u64) * 8;
        proof {
            assert((v >> sh) & 0xff < 256) by (bit_vector);
        }
        out.push(((v >> sh) & 0xff) as u8);
        b = b + 1;
    }
    proof {
        assert(out@ =~= old(out)@ + spec_le64(v));
    }
}

/// Read the 32-bit little-endian value at `off`.
fn read_le32(b: &[u8], off: usize) -> (r: u32)
    requires
        off + 4 <= b@.len(),
    ensures
        r == spec_read_le32(b@, off as int),
{
    (b[off] as u32) | ((b[off + 1] as u32) << 8) | ((b[off + 2] as u32) << 16) | ((b[off
        + 3] as u32) << 24)
}

/// Read the 64-bit little-endian value at `off`.
fn read_le64(b: &[u8], off: usize) -> (r: u64)
    requires
        off + 8 <= b@.len(),
    ensures
        r == spec_read_le64(b@, off as int),
{
    (b[off] as u64) | ((b[off + 1] as u64) << 8) | ((b[off + 2] as u64) << 16) | ((b[off
        + 3] as u64) << 24) | ((b[off + 4] as u64) << 32) | ((b[off + 5] as u64) << 40) | ((b[
    off + 6] as u64) << 48) | ((b[off + 7] as u64) << 56)
}

/// Serialize a signature request into its canonical bytes.
pub fn serialize_request(r: &SignatureRequest) -> (out: Vec<u8>)
    requires
        r.public_key@.len() <= MAX_FIELD_LEN,
        r.signature@.len() <= MAX_FIELD_LEN,
    ensures
        out@ == spec_ser_request(r.message@, r.public_key@, r.signature@, r.request_id),
{
    let mut out: Vec<u8> = Vec::new();
    out.extend_from_slice(r.message.as_slice());
    push_le32(&mut out, r.public_key.len() as u32);
    out.extend_from_slice(r.public_key.as_slice());
    push_le32(&mut out, r.signature.len() as u32);
    out.extend_from_slice(r.signature.as_slice());
    push_le64(&mut out, r.request_id);
    proof {
        assert(out@ =~= spec_ser_request(r.message@, r.public_key@, r.signature@,
            r.request_id));
    }
    out
}

/// Parse one canonical signature request, accepting exactly the canonical
/// bytes of one record.
pub fn parse_request(b: &[u8]) -> (r: Option<SignatureRequest>)
    ensures
        match r {
            Some(req) => spec_parse_request(b@) == Some((req.message@, req.public_key@,
                req.signature@, req.request_id)),
            None => spec_parse_request(b@) is None,
        },
{
    if b.len() < 36 {
        return None;
    }
    let pk_len = read_le32(b, 32) as usize;
    if pk_len > MAX_FIELD_LEN || b.len() < 36 + pk_len + 4 {
        return None;
    }
    let sig_len = read_le32(b, 36 + pk_len) as usize;
    if sig_len > MAX_FIELD_LEN || b.len() != 36 + pk_len + 4 + sig_len + 8 {
        return None;
    }
    let msg_slice = vstd::slice::slice_subrange(b, 0, 32);
    let mut message = [0u8; 32];
    let mut i: usize = 0;
    while i < 32
        invariant
            msg_slice@.len() == 32,
            msg_slice@ == b@.subrange(0, 32),
            i <= 32,
            forall|j: int| 0 <= j < i ==> message@[j] == msg_slice@[j],
        decreases 32 - i,
    {
        message.set(i, msg_slice[i]);
        i = i + 1;
    }
    proof {
        assert(message@ =~= b@.subrange(0, 32));
    }
    let public_key = vstd::slice::slice_to_vec(vstd::slice::slice_subrange(b, 36, 36 + pk_len));
    let signature = vstd::slice::slice_to_vec(vstd::slice::slice_subrange(b, 40 + pk_len, 40
        + pk_len + sig_len));
    let request_id = read_le64(b, 40 + pk_len + sig_len);
    Some(SignatureRequest { message, public_key, signature, request_id })
}

/// Parsing the canonical bytes of a signature request gives back exactly
/// its fields.
pub proof fn lemma_request_round_trip(msg: Seq<u8>, pk: Seq<u8>, sig: Seq<u8>, id: u64)
    requires
        msg.len() == 32,
        pk.len() <= MAX_FIELD_LEN,
        sig.len() <= MAX_FIELD_LEN,
    ensures
        spec_parse_request(spec_ser_request(msg, pk, sig, id)) == Some((msg, pk, sig, id)),
{
    let b = spec_ser_request(msg, pk, sig, id);
    assert(b.len() == 32 + 4 + pk.len() + 4 + sig.len() + 8);
    assert(b.subrange(32, 36) =~= spec_le32(pk.len() as u32));
    lemma_le32_read(b, 32, pk.len() as u32);
    assert((pk.len() as u32) as int == pk.len() as int);
    assert(b.subrange(36 + pk.len() as int, 36 + pk.len() as int + 4) =~= spec_le32(sig.len() as u32));
    lemma_le32_read(b, 36 + pk.len() as int as int, sig.len() as u32);
    assert(b.subrange(0, 32) =~= msg);
    assert(b.subrange(36, 36 + pk.len() as int) =~= pk);
    assert(b.subrange(40 + pk.len() as int, 40 + pk.len() as int + sig.len() as int) =~= sig);
    assert(b.subrange(40 + pk.len() as int + sig.len() as int, b.len() as int) =~= spec_le64(id));
    lemma_le64_read(b, 40 + pk.len() as int + sig.len() as int, id);
}

/// The canonical bytes of a guest output.
pub open spec fn spec_ser_output(version: u8, chain_id: u32, batch_id: u64, verified_count:
    u32, root: Seq<u8>, ids: Seq<u64>) -> Seq<u8> {
    seq![version] + spec_le32(chain_id) + spec_le64(batch_id) + spec_le32(verified_count) + root
        + spec_le32(ids.len() as u32) + spec_ser_ids(ids)
}

/// The identifiers, each as eight little-endian bytes.
pub open spec fn spec_ser_ids(ids: Seq<u64>) -> Seq<u8>
    decreases ids.len(),
{
    if ids.len() == 0 {
        Seq::empty()
    } else {
        spec_ser_ids(ids.drop_last()) + spec_le64(ids.last())
    }
}

/// The identifier list a byte string holds from `off` on.
pub open spec fn spec_parse_ids(b: Seq<u8>, off: int, n: int) -> Seq<u64>
    decreases n,
{
    if n <= 0 {
        Seq::empty()
    } else {
        spec_parse_ids(b, off, n - 1).push(spec_read_le64(b, off + (n - 1) * 8))
    }
}

/// The output record a byte string holds, when it is exactly one canonical
/// guest output.
pub open spec fn spec_parse_output(b: Seq<u8>) -> Option<(u8, u32, u64, u32, Seq<u8>, Seq<
    u64>)> {
    if b.len() < 53 {
        None
    } else {
        let count = spec_read_le32(b, 49) as int;
        if count > MAX_FIELD_LEN || b.len() != 53 + 8 * count {
            None
        } else {
            Some((b[0], spec_read_le32(b, 1), spec_read_le64(b, 5), spec_read_le32(b, 13),
            b.subrange(17, 49), spec_parse_ids(b, 53, count)))
        }
    }
}

/// Serialize a guest output into its canonical bytes.
pub fn serialize_output(o: &RemlProofOutput) -> (out: Vec<u8>)
    requires
        o.verified_request_ids@.len() <= MAX_FIELD_LEN,
    ensures
        out@ == spec_ser_output(o.version, o.chain_id, o.batch_id, o.verified_count,
            o.requests_root@, o.verified_request_ids@),
{
    let mut out: Vec<u8> = Vec::new();
    out.push(o.version);
    push_le32(&mut out, o.chain_id);
    push_le64(&mut out, o.batch_id);
    push_le32(&mut out, o.verified_count);
    out.extend_from_slice(o.requests_root.as_slice());
    push_le32(&mut out, o.verified_request_ids.len() as u32);
    let ghost head = out@;
    let mut i: usize = 0;
    while i < o.verified_request_ids.len()
        invariant
            o.verified_request_ids@.len() <= MAX_FIELD_LEN,
            i <= o.verified_request_ids@.len(),
            out@ == head + spec_ser_ids(o.verified_request_ids@.take(i as int)),
        decreases o.verified_request_ids@.len() - i,
    {
        proof {
            assert(o.verified_request_ids@.take(i + 1).drop_last()
                =~= o.verified_request_ids@.take(i as int));
        }
        push_le64(&mut out, o.verified_request_ids[i]);
        proof {
            assert(out@ =~= head + spec_ser_ids(o.verified_request_ids@.take(i + 1)));
        }
        i = i + 1;
    }
    proof {
        assert(o.verified_request_ids@.take(o.verified_request_ids@.len() as int)
            =~= o.verified_request_ids@);
        assert(out@ =~= spec_ser_output(o.version, o.chain_id, o.batch_id, o.verified_count,
            o.requests_root@, o.verified_request_ids@));
    }
    out
}

/// Parse one canonical guest output.
pub fn parse_output(b: &[u8]) -> (r: Option<RemlProofOutput>)
    ensures
        match r {
            Some(o) => spec_parse_output(b@) == Some((o.version, o.chain_id, o.batch_id,
                o.verified_count, o.requests_root@, o.verified_request_ids@)),
            None => spec_parse_output(b@) is None,
        },
{
    if b.len() < 53 {
        return None;
    }
    let count = read_le32(b, 49) as usize;
    if count > MAX_FIELD_LEN || b.len() != 53 + 8 * count {
        return None;
    }
    let version = b[0];
    let chain_id = read_le32(b, 1);
    let batch_id = read_le64(b, 5);
    let verified_count = read_le32(b, 13);
    let root_slice = vstd::slice::slice_subrange(b, 17, 49);
    let mut requests_root = [0u8; 32];
    let mut i: usize = 0;
    while i < 32
        invariant
            root_slice@.len() == 32,
            root_slice@ == b@.subrange(17, 49),
            i <= 32,
            forall|j: int| 0 <= j < i ==> requests_root@[j] == root_slice@[j],
        decreases 32 - i,
    {
        requests_root.set(i, root_slice[i]);
        i = i + 1;
    }
    proof {
        assert(requests_root@ =~= b@.subrange(17, 49));
    }
    let mut ids: Vec<u64> = Vec::new();
    let mut i: usize = 0;
    while i < count
        invariant
            b@.len() == 53 + 8 * count,
            count <= MAX_FIELD_LEN,
            i <= count,
            ids@ == spec_parse_ids(b@, 53, i as int),
            ids@.len() == i,
        decreases count - i,
    {
        ids.push(read_le64(b, 53 + 8 * i));
        i = i + 1;
    }
    Some(RemlProofOutput { version, chain_id, batch_id, verified_count, requests_root,
        verified_request_ids: ids })
}

/// Parsing the canonical bytes of an identifier list gives it back.
proof fn lemma_ids_round_trip(b: Seq<u8>, off: int, ids: Seq<u64>)
    requires
        0 <= off,
        off + 8 * ids.len() as int <= b.len(),
        b.subrange(off, off + 8 * ids.len() as int) == spec_ser_ids(ids),
    ensures
        spec_parse_ids(b, off, ids.len() as int) == ids,
    decreases ids.len(),
{
    lemma_ser_ids_len(ids);
    if ids.len() > 0 {
        let n = ids.len() as int;
        lemma_ser_ids_len(ids.drop_last());
        assert(b.subrange(off, off + 8 * (n - 1)) =~= spec_ser_ids(ids.drop_last())) by {
            assert forall|j: int| 0 <= j < 8 * (n - 1) implies b.subrange(off, off + 8 * (n
                - 1))[j] == spec_ser_ids(ids.drop_last())[j] by {
                assert(b.subrange(off, off + 8 * n)[j] == b[off + j]);
                assert(spec_ser_ids(ids)[j] == spec_ser_ids(ids.drop_last())[j]);
            }
        }
        lemma_ids_round_trip(b, off, ids.drop_last());
        assert(b.subrange(off + 8 * (n - 1), off + 8 * n) =~= spec_le64(ids.last())) by {
            assert forall|j: int| 0 <= j < 8 implies b.subrange(off + 8 * (n - 1), off + 8 * n)[
                j] == spec_le64(ids.last())[j] by {
                assert(b.subrange(off, off + 8 * n)[8 * (n - 1) + j] == b[off + 8 * (n - 1)
                    + j]);
                assert(spec_ser_ids(ids)[8 * (n - 1) + j] == spec_le64(ids.last())[j]);
            }
        }
        lemma_le64_read(b, off + 8 * (n - 1), ids.last());
        assert(spec_parse_ids(b, off, n) =~= ids);
    } else {
        assert(spec_parse_ids(b, off, 0) =~= ids);
    }
}

/// The canonical identifier bytes take eight bytes per identifier.
proof fn lemma_ser_ids_len(ids: Seq<u64>)
    ensures
        spec_ser_ids(ids).len() == 8 * ids.len() as int,
    decreases ids.len(),
{
    if ids.len() > 0 {
        lemma_ser_ids_len(ids.drop_last());
    }
}

/// Parsing the canonical bytes of a guest output gives back exactly its
/// fields.
pub proof fn lemma_output_round_trip(version: u8, chain_id: u32, batch_id: u64, verified_count:
    u32, root: Seq<u8>, ids: Seq<u64>)
    requires
        root.len() == 32,
        ids.len() <= MAX_FIELD_LEN,
    ensures
        spec_parse_output(spec_ser_output(version, chain_id, batch_id, verified_count, root,
            ids)) == Some((version, chain_id, batch_id, verified_count, root, ids)),
{
    let b = spec_ser_output(version, chain_id, batch_id, verified_count, root, ids);
    lemma_ser_ids_len(ids);
    assert(b.len() == 53 + 8 * ids.len() as int);
    assert(b.subrange(49, 53) =~= spec_le32(ids.len() as u32));
    lemma_le32_read(b, 49, ids.len() as u32);
    assert(b.subrange(1, 5) =~= spec_le32(chain_id));
    lemma_le32_read(b, 1, chain_id);
    assert(b.subrange(5, 13) =~= spec_le64(batch_id));
    lemma_le64_read(b, 5, batch_id);
    assert(b.subrange(13, 17) =~= spec_le32(verified_count));
    lemma_le32_read(b, 13, verified_count);
    assert(b[0] == version);
    assert(b.subrange(17, 49) =~= root);
    assert(b.subrange(53, 53 + 8 * ids.len() as int) =~= spec_ser_ids(ids));
    lemma_ids_round_trip(b, 53, ids);
}

/// The canonical bytes of a proof bundle: the proof with its length, the
/// output record, the key hash, and the generation time.
pub open spec fn spec_ser_bundle(proof: Seq<u8>, output: Seq<u8>, vkey: Seq<u8>, generated_at:
    u64) -> Seq<u8> {
    spec_le32(proof.len() as u32) + proof + output + vkey + spec_le64(generated_at)
}

/// The bundle a byte string holds, when it is exactly one canonical
/// bundle whose middle part is one canonical output record.
pub open spec fn spec_parse_bundle(b: Seq<u8>) -> Option<(Seq<u8>, (u8, u32, u64, u32, Seq<u8>,
    Seq<u64>), Seq<u8>, u64)> {
    if b.len() < 4 {
        None
    } else {
        let plen = spec_read_le32(b, 0) as int;
        if plen > MAX_FIELD_LEN || b.len() < 4 + plen + 40 {
            None
        } else {
            match spec_parse_output(b.subrange(4 + plen, b.len() - 40)) {
                None => None,
                Some(output) => Some((b.subrange(4, 4 + plen), output, b.subrange(b.len() - 40,
                    b.len() - 8), spec_read_le64(b, b.len() - 8))),
            }
        }
    }
}

/// Serialize a proof bundle into its canonical bytes.
pub fn serialize_bundle(bundle: &RemlProofBundle) -> (out: Vec<u8>)
    requires
        bundle.proof@.len() <= MAX_FIELD_LEN,
        bundle.output.verified_request_ids@.len() <= MAX_FIELD_LEN,
    ensures
        out@ == spec_ser_bundle(bundle.proof@, spec_ser_output(bundle.output.version,
            bundle.output.chain_id, bundle.output.batch_id, bundle.output.verified_count,
            bundle.output.requests_root@, bundle.output.verified_request_ids@),
            bundle.vkey_hash@, bundle.generated_at),
{
    let mut out: Vec<u8> = Vec::new();
    push_le32(&mut out, bundle.proof.len() as u32);
    out.extend_from_slice(bundle.proof.as_slice());
    let output_bytes = serialize_output(&bundle.output);
    out.extend_from_slice(output_bytes.as_slice());
    out.extend_from_slice(bundle.vkey_hash.as_slice());
    push_le64(&mut out, bundle.generated_at);
    proof {
        assert(out@ =~= spec_ser_bundle(bundle.proof@, spec_ser_output(bundle.output.version,
            bundle.output.chain_id, bundle.output.batch_id, bundle.output.verified_count,
            bundle.output.requests_root@, bundle.output.verified_request_ids@),
            bundle.vkey_hash@, bundle.generated_at));
    }
    out
}

/// Parse one canonical proof bundle.
pub fn parse_bundle(b: &[u8]) -> (r: Option<RemlProofBundle>)
    ensures
        match r {
            Some(bundle) => spec_parse_bundle(b@) == Some((bundle.proof@, (
            bundle.output.version, bundle.output.chain_id, bundle.output.batch_id,
            bundle.output.verified_count, bundle.output.requests_root@,
            bundle.output.verified_request_ids@), bundle.vkey_hash@, bundle.generated_at)),
            None => spec_parse_bundle(b@) is None,
        },
{
    if b.len() < 4 {
        return None;
    }
    let plen = read_le32(b, 0) as usize;
    if plen > MAX_FIELD_LEN || b.len() < 4 + plen + 40 {
        return None;
    }
    let proof_bytes = vstd::slice::slice_to_vec(vstd::slice::slice_subrange(b, 4, 4 + plen));
    let output_slice = vstd::slice::slice_subrange(b, 4 + plen, b.len() - 40);
    let output = match parse_output(output_slice) {
        Some(o) => o,
        None => {
            return None;
        },
    };
    let vkey_slice = vstd::slice::slice_subrange(b, b.len() - 40, b.len() - 8);
    let mut vkey_hash = [0u8; 32];
    let mut i: usize = 0;
    while i < 32
        invariant
            vkey_slice@.len() == 32,
            vkey_slice@ == b@.subrange(b@.len() - 40, b@.len() - 8),
            i <= 32,
            forall|j: int| 0 <= j < i ==> vkey_hash@[j] == vkey_slice@[j],
        decreases 32 - i,
    {
        vkey_hash.set(i, vkey_slice[i]);
        i = i + 1;
    }
    proof {
        assert(vkey_hash@ =~= b@.subrange(b@.len() - 40, b@.len() - 8));
    }
    let generated_at = read_le64(b, b.len() - 8);
    Some(RemlProofBundle { proof: proof_bytes, output, vkey_hash, generated_at })
}

/// Parsing the canonical bytes of a proof bundle gives back exactly its
/// fields, the output record included.
pub proof fn lemma_bundle_round_trip(
    proof: Seq<u8>,
    version: u8,
    chain_id: u32,
    batch_id: u64,
    verified_count: u32,
    root: Seq<u8>,
    ids: Seq<u64>,
    vkey: Seq<u8>,
    generated_at: u64,
)
    requires
        proof.len() <= MAX_FIELD_LEN,
        root.len() == 32,
        ids.len() <= MAX_FIELD_LEN,
        vkey.len() == 32,
    ensures
        spec_parse_bundle(spec_ser_bundle(proof, spec_ser_output(version, chain_id, batch_id,
            verified_count, root, ids), vkey, generated_at)) == Some((proof, (version, chain_id,
        batch_id, verified_count, root, ids), vkey, generated_at)),
{
    let output = spec_ser_output(version, chain_id, batch_id, verified_count, root, ids);
    lemma_ser_ids_len(ids);
    assert(output.len() == 53 + 8 * ids.len() as int);
    let b = spec_ser_bundle(proof, output, vkey, generated_at);
    assert(b.len() == 4 + proof.len() as int + output.len() as int + 40);
    assert(b.subrange(0, 4) =~= spec_le32(proof.len() as u32));
    lemma_le32_read(b, 0, proof.len() as u32);
    assert(b.subrange(4, 4 + proof.len() as int) =~= proof);
    assert(b.subrange(4 + proof.len() as int, b.len() - 40) =~= output);
    lemma_output_round_trip(version, chain_id, batch_id, verified_count, root, ids);
    assert(b.subrange(b.len() - 40, b.len() - 8) =~= vkey);
    assert(b.subrange(b.len() - 8, b.len() as int) =~= spec_le64(generated_at));
    lemma_le64_read(b, b.len() - 8, generated_at);
}

} // verus!
