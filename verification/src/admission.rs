//! The on-chain proof-admission state machine: aggregator registry, replay
//! protection through a commitment store, independent Merkle recomputation,
//! structural proof checks, and the verified-request ledger.
//!
//! The stores are explicit key-value tables owned by the state machine and
//! passed by reference into every transition, so the machine runs unchanged
//! against an in-memory backend. Every transition is specified against the
//! abstract map view of the stores.

use vstd::prelude::*;
use vstd::slice::SliceAdditionalExecFns;

use crate::keccak::{keccak256, spec_keccak256, spec_le32};
use crate::merkle::{compute_merkle_root, spec_le64, spec_merkle_root};
use crate::params::{GROTH16_PROOF_SIZE, MIN_PROOF_SIZE, REML_VERSION, TESSERAX_CHAIN_ID};

verus! {

/// The origin a call arrives under.
#[derive(Clone, Copy, Debug, PartialEq, Eq, Structural)]
pub enum Origin {
    /// The privileged, root-equivalent origin.
    Root,
    /// A transaction signed by the given account.
    Signed(u64),
    /// An unsigned call.
    Unsigned,
}

/// Registry entry of an aggregator; never deleted, only deactivated.
#[derive(Clone, Copy, Debug, PartialEq, Eq, Structural)]
pub struct AggregatorInfo {
    /// Block at which the aggregator was registered.
    pub registered_at: u64,
    /// Number of accepted submissions.
    pub proofs_submitted: u64,
    /// Whether the aggregator may still submit.
    pub active: bool,
}

/// Record of one accepted batch.
#[derive(Clone, Debug)]
pub struct BatchInfo {
    /// The submitting aggregator.
    pub aggregator: u64,
    /// Block at which the batch was accepted.
    pub verified_at: u64,
    /// Number of verified signatures the batch certified.
    pub signature_count: u32,
    /// Merkle root over the verified request identifiers.
    pub requests_root: [u8; 32],
    /// Replay-guard commitment the batch was admitted under.
    pub proof_commitment: [u8; 32],
}

/// The public values a submission claims its proof commits to.
#[derive(Clone, Debug)]
pub struct PublicValues {
    /// Protocol version.
    pub version: u8,
    /// Chain tag.
    pub chain_id: u32,
    /// Batch identifier.
    pub batch_id: u64,
    /// Number of verified signatures.
    pub verified_count: u32,
    /// Merkle root over the verified request identifiers.
    pub requests_root: [u8; 32],
    /// The verified request identifiers, in order.
    pub verified_request_ids: Vec<u64>,
}

/// A proof bundle as submitted on-chain.
#[derive(Clone, Debug)]
pub struct ProofSubmission {
    /// Batch identifier the submission claims.
    pub batch_id: u64,
    /// Opaque proof bytes.
    pub proof: Vec<u8>,
    /// Public values the proof commits to.
    pub public_values: PublicValues,
    /// Hash of the verification key the proof was generated against.
    pub vkey_hash: [u8; 32],
}

/// Why a submission was turned away at the proof-validity step.
#[derive(Clone, Copy, Debug, PartialEq, Eq, Structural)]
pub enum RejectReason {
    InvalidProofFormat,
    InvalidVKeyHash,
    InvalidPublicValues,
    BatchAlreadyVerified,
    ProofAlreadyUsed,
    StarkVerificationFailed,
    InvalidMerkleRoot,
}

/// Observable events the state machine emits.
#[derive(Clone, Copy, Debug, PartialEq, Eq, Structural)]
pub enum Event {
    AggregatorRegistered { aggregator: u64 },
    AggregatorDeactivated { aggregator: u64 },
    ProofVerified { batch_id: u64, aggregator: u64, signature_count: u32, block_number: u64 },
    ProofRejected { batch_id: u64, aggregator: u64, reason: RejectReason },
}

/// The errors a transition returns.
#[derive(Clone, Copy, Debug, PartialEq, Eq, Structural)]
pub enum Error {
    BadOrigin,
    NotAuthorized,
    AggregatorAlreadyRegistered,
    AggregatorNotFound,
    ProofVerificationFailed,
    InvalidVKeyHash,
    BatchAlreadyVerified,
    ProofTooSmall,
    InvalidPublicValues,
    ProofAlreadyUsed,
    InvalidMerkleRoot,
}

/// The proof-admission state machine and its persistent stores.
pub struct Pallet {
    /// Expected verification key hash; all zero means unconfigured.
    pub expected_vkey_hash: [u8; 32],
    /// Aggregator registry, keyed by account.
    pub aggregators: Vec<(u64, AggregatorInfo)>,
    /// Accepted batches, keyed by batch identifier.
    pub verified_batches: Vec<(u64, BatchInfo)>,
    /// Verified requests: request identifier to (batch, block).
    pub verified_requests: Vec<(u64, (u64, u64))>,
    /// Number of accepted submissions.
    pub total_proofs_verified: u64,
    /// Number of signatures certified by accepted submissions.
    pub total_signatures_verified: u64,
    /// Replay guard: admitted commitments to their admitting block.
    pub proof_commitments: Vec<([u8; 32], u64)>,
    /// Event log, oldest first.
    pub events: Vec<Event>,
}

/// The abstract view of the state machine: each store as a map.
#[verifier::ext_equal]
pub struct StateView {
    pub expected_vkey_hash: Seq<u8>,
    pub aggregators: Map<u64, AggregatorInfo>,
    pub batches: Map<u64, (u64, u64, u32, Seq<u8>, Seq<u8>)>,
    pub requests: Map<u64, (u64, u64)>,
    pub total_proofs_verified: u64,
    pub total_signatures_verified: u64,
    pub commitments: Map<Seq<u8>, u64>,
    pub events: Seq<Event>,
}

/// The map a key-value table holds; a later entry would win, though the
/// well-formed machine keeps keys unique.
pub open spec fn spec_assoc<K, V>(s: Seq<(K, V)>) -> Map<K, V>
    decreases s.len(),
{
    if s.len() == 0 {
        Map::empty()
    } else {
        spec_assoc(s.drop_last()).insert(s.last().0, s.last().1)
    }
}

/// The abstract content of a batch record.
pub open spec fn spec_batch_view(b: BatchInfo) -> (u64, u64, u32, Seq<u8>, Seq<u8>) {
    (b.aggregator, b.verified_at, b.signature_count, b.requests_root@, b.proof_commitment@)
}

/// The commitment table with byte-sequence keys.
pub open spec fn spec_commitments_map(s: Seq<([u8; 32], u64)>) -> Map<Seq<u8>, u64>
    decreases s.len(),
{
    if s.len() == 0 {
        Map::empty()
    } else {
        spec_commitments_map(s.drop_last()).insert(s.last().0@, s.last().1)
    }
}

/// The batch table under its abstract record view.
pub open spec fn spec_batches_map(s: Seq<(u64, BatchInfo)>) -> Map<u64, (u64, u64, u32, Seq<u8>,
    Seq<u8>)>
    decreases s.len(),
{
    if s.len() == 0 {
        Map::empty()
    } else {
        spec_batches_map(s.drop_last()).insert(s.last().0, spec_batch_view(s.last().1))
    }
}

impl View for Pallet {
    type V = StateView;

    open spec fn view(&self) -> StateView {
        StateView {
            expected_vkey_hash: self.expected_vkey_hash@,
            aggregators: spec_assoc(self.aggregators@),
            batches: spec_batches_map(self.verified_batches@),
            requests: spec_assoc(self.verified_requests@),
            total_proofs_verified: self.total_proofs_verified,
            total_signatures_verified: self.total_signatures_verified,
            commitments: spec_commitments_map(self.proof_commitments@),
            events: self.events@,
        }
    }
}

/// A key occurs in a table exactly when the abstract map holds it.
proof fn lemma_assoc_contains<K, V>(s: Seq<(K, V)>, k: K)
    ensures
        spec_assoc(s).contains_key(k) <==> exists|i: int| 0 <= i < s.len() && (#[trigger] s[
            i]).0 == k,
    decreases s.len(),
{
    if s.len() > 0 {
        lemma_assoc_contains(s.drop_last(), k);
        if spec_assoc(s).contains_key(k) {
            if s.last().0 == k {
                assert(s[s.len() - 1].0 == k);
            } else {
                let i = choose|i: int| 0 <= i < s.drop_last().len() && (#[trigger] s.drop_last()[
                    i]).0 == k;
                assert(s[i].0 == k);
            }
        }
        if exists|i: int| 0 <= i < s.len() && (#[trigger] s[i]).0 == k {
            let i = choose|i: int| 0 <= i < s.len() && (#[trigger] s[i]).0 == k;
            if i < s.len() - 1 {
                assert(s.drop_last()[i].0 == k);
            }
        }
    }
}

/// In a table with unique keys, the abstract map sends each key to its
/// entry's value.
proof fn lemma_assoc_get<K, V>(s: Seq<(K, V)>, i: int)
    requires
        0 <= i < s.len(),
        forall|a: int, b: int| 0 <= a < b < s.len() ==> (#[trigger] s[a]).0 != (#[trigger] s[
            b]).0,
    ensures
        spec_assoc(s).contains_key(s[i].0),
        spec_assoc(s)[s[i].0] == s[i].1,
    decreases s.len(),
{
    if i == s.len() - 1 {
    } else {
        assert(forall|a: int, b: int| 0 <= a < b < s.drop_last().len() ==> (#[trigger] s.drop_last()[
            a]).0 != (#[trigger] s.drop_last()[b]).0);
        lemma_assoc_get(s.drop_last(), i);
        assert(s[i].0 != s.last().0);
    }
}

/// The machine's well-formedness: every table keeps its keys unique.
pub open spec fn wf(p: Pallet) -> bool {
    &&& forall|a: int, b: int| 0 <= a < b < p.aggregators@.len() ==> (#[trigger] p.aggregators@[
        a]).0 != (#[trigger] p.aggregators@[b]).0
    &&& forall|a: int, b: int| 0 <= a < b < p.verified_batches@.len() ==> (
    #[trigger] p.verified_batches@[a]).0 != (#[trigger] p.verified_batches@[b]).0
    &&& forall|a: int, b: int| 0 <= a < b < p.verified_requests@.len() ==> (
    #[trigger] p.verified_requests@[a]).0 != (#[trigger] p.verified_requests@[b]).0
    &&& forall|a: int, b: int| 0 <= a < b < p.proof_commitments@.len() ==> (
    #[trigger] p.proof_commitments@[a]).0@ != (#[trigger] p.proof_commitments@[b]).0@
}

/// The all-zero byte string standing for an unconfigured key hash.
pub open spec fn spec_zero32() -> Seq<u8> {
    Seq::new(32, |i: int| 0u8)
}

/// The replay-guard key of a submission: the hash binding verification
/// key, batch identifier, claimed root, and the hash of the proof bytes.
pub open spec fn spec_proof_commitment(vkey: Seq<u8>, batch_id: u64, root: Seq<u8>, proof: Seq<
    u8>) -> Seq<u8> {
    spec_keccak256(vkey + spec_le64(batch_id) + root + spec_keccak256(proof))
}

/// The commitment key of a submission.
pub open spec fn spec_commitment_key(sub: ProofSubmission) -> Seq<u8> {
    spec_proof_commitment(sub.vkey_hash@, sub.batch_id, sub.public_values.requests_root@,
        sub.proof@)
}

/// The digest a proof is expected to embed for its public values.
pub open spec fn spec_public_hash(pv: PublicValues) -> Seq<u8> {
    spec_keccak256(seq![pv.version] + spec_le32(pv.chain_id) + spec_le64(pv.batch_id) + spec_le32(
        pv.verified_count) + pv.requests_root@)
}

/// How many of the 32 window bytes at `i` agree with the digest.
pub open spec fn spec_eq_count(proof: Seq<u8>, ph: Seq<u8>, i: int, n: int) -> int
    decreases n,
{
    if n <= 0 {
        0
    } else {
        spec_eq_count(proof, ph, i, n - 1) + if proof[i + n - 1] == ph[n - 1] {
            1int
        } else {
            0int
        }
    }
}

/// Some window of the proof agrees with the digest in at least 28 of its
/// 32 bytes.
pub open spec fn spec_binding(proof: Seq<u8>, ph: Seq<u8>) -> bool {
    exists|i: int| 0 <= i < proof.len() - 32 && spec_eq_count(proof, ph, i, 32) >= 28
}

/// The structural proof check: a size floor, consistency of the claimed
/// count, and a best-effort scan for the embedded public-value digest,
/// waived for large proofs.
pub open spec fn spec_verify_sp1_proof(proof: Seq<u8>, pv: PublicValues) -> bool {
    if proof.len() < MIN_PROOF_SIZE && proof.len() != GROTH16_PROOF_SIZE {
        false
    } else if pv.verified_count == 0 {
        false
    } else if pv.verified_count != pv.verified_request_ids@.len() {
        false
    } else {
        spec_binding(proof, spec_public_hash(pv)) || proof.len() >= 1000
    }
}

/// The authorization predicate: the account is registered and active.
pub open spec fn spec_authorized(v: StateView, account: u64) -> bool {
    v.aggregators.contains_key(account) && v.aggregators[account].active
}

/// The public values match the expected protocol tags and the claimed
/// batch identifier.
pub open spec fn spec_pv_ok(sub: ProofSubmission) -> bool {
    &&& sub.public_values.version == REML_VERSION
    &&& sub.public_values.chain_id == TESSERAX_CHAIN_ID
    &&& sub.public_values.batch_id == sub.batch_id
}

/// The submission's key hash matches the configured one, when one is
/// configured.
pub open spec fn spec_vkey_ok(v: StateView, sub: ProofSubmission) -> bool {
    v.expected_vkey_hash == spec_zero32() || sub.vkey_hash@ == v.expected_vkey_hash
}

/// The claimed root is the Merkle root of the claimed identifiers.
pub open spec fn spec_root_ok(sub: ProofSubmission) -> bool {
    spec_merkle_root(sub.public_values.verified_request_ids@)
        == sub.public_values.requests_root@
}

/// Mark every identifier as verified in the given batch and block.
pub open spec fn spec_mark_verified(m: Map<u64, (u64, u64)>, ids: Seq<u64>, batch_id: u64,
    block: u64) -> Map<u64, (u64, u64)>
    decreases ids.len(),
{
    if ids.len() == 0 {
        m
    } else {
        spec_mark_verified(m.insert(ids[0], (batch_id, block)), ids.skip(1), batch_id, block)
    }
}

/// Saturating counter bump.
pub open spec fn spec_sat_add(a: u64, b: u64) -> u64 {
    if a + b <= u64::MAX {
        (a + b) as u64
    } else {
        u64::MAX
    }
}

/// What a submission does to the abstract state, and what it returns: the
/// checks run in order and the first failing one aborts the whole
/// transition; only the proof-validity failure leaves a trace, its
/// rejection event.
pub open spec fn spec_submit(v: StateView, origin: Origin, sub: ProofSubmission, block: u64)
    -> (StateView, Result<(), Error>) {
    match origin {
        Origin::Signed(account) => spec_submit_signed(v, account, sub, block),
        _ => (v, Err(Error::BadOrigin)),
    }
}

/// The transition for a signed submission.
pub open spec fn spec_submit_signed(v: StateView, account: u64, sub: ProofSubmission, block:
    u64) -> (StateView, Result<(), Error>) {
    if !spec_authorized(v, account) {
        (v, Err(Error::NotAuthorized))
    } else if v.batches.contains_key(sub.batch_id) {
        (v, Err(Error::BatchAlreadyVerified))
    } else if !spec_pv_ok(sub) {
        (v, Err(Error::InvalidPublicValues))
    } else if !spec_vkey_ok(v, sub) {
        (v, Err(Error::InvalidVKeyHash))
    } else if v.commitments.contains_key(spec_commitment_key(sub)) {
        (v, Err(Error::ProofAlreadyUsed))
    } else if !spec_root_ok(sub) {
        (v, Err(Error::InvalidMerkleRoot))
    } else if !spec_verify_sp1_proof(sub.proof@, sub.public_values) {
        (StateView { events: v.events.push(Event::ProofRejected { batch_id: sub.batch_id,
            aggregator: account, reason: RejectReason::StarkVerificationFailed }), ..v },
        Err(Error::ProofVerificationFailed))
    } else {
        let info = v.aggregators[account];
        (StateView {
            commitments: v.commitments.insert(spec_commitment_key(sub), block),
            batches: v.batches.insert(sub.batch_id, (account, block,
                sub.public_values.verified_count, sub.public_values.requests_root@,
                spec_commitment_key(sub))),
            requests: spec_mark_verified(v.requests,
                sub.public_values.verified_request_ids@, sub.batch_id, block),
            aggregators: v.aggregators.insert(account, AggregatorInfo {
                proofs_submitted: spec_sat_add(info.proofs_submitted, 1), ..info }),
            total_proofs_verified: spec_sat_add(v.total_proofs_verified, 1),
            total_signatures_verified: spec_sat_add(v.total_signatures_verified,
                sub.public_values.verified_count as u64),
            events: v.events.push(Event::ProofVerified { batch_id: sub.batch_id,
                aggregator: account, signature_count: sub.public_values.verified_count,
                block_number: block }),
            ..v
        }, Ok(()))
    }
}

impl Pallet {
    /// A fresh machine with empty stores. An all-zero expected key hash
    /// means no key binding is enforced.
    pub fn new(expected_vkey_hash: [u8; 32]) -> (r: Pallet)
        ensures
            wf(r),
            r@.expected_vkey_hash == expected_vkey_hash@,
            r@.aggregators == Map::<u64, AggregatorInfo>::empty(),
            r@.batches == Map::<u64, (u64, u64, u32, Seq<u8>, Seq<u8>)>::empty(),
            r@.requests == Map::<u64, (u64, u64)>::empty(),
            r@.commitments == Map::<Seq<u8>, u64>::empty(),
            r@.total_proofs_verified == 0,
            r@.total_signatures_verified == 0,
            r@.events == Seq::<Event>::empty(),
    {
        Pallet {
            expected_vkey_hash,
            aggregators: Vec::new(),
            verified_batches: Vec::new(),
            verified_requests: Vec::new(),
            total_proofs_verified: 0,
            total_signatures_verified: 0,
            proof_commitments: Vec::new(),
            events: Vec::new(),
        }
    }

    /// Register a new aggregator. Privileged: only the root origin may
    /// call it; a second registration of the same account is refused.
    pub fn register_aggregator(&mut self, origin: Origin, aggregator: u64, current_block: u64)
        -> (r: Result<(), Error>)
        requires
            wf(*old(self)),
        ensures
            wf(*final(self)),
            origin != Origin::Root ==> r == Err::<(), Error>(Error::BadOrigin) && *final(self)
                == *old(self),
            origin == Origin::Root && old(self)@.aggregators.contains_key(aggregator) ==> r
                == Err::<(), Error>(Error::AggregatorAlreadyRegistered) && *final(self) == *old(
                self),
            origin == Origin::Root && !old(self)@.aggregators.contains_key(aggregator) ==> {
                &&& r == Ok::<(), Error>(())
                &&& final(self)@.aggregators == old(self)@.aggregators.insert(aggregator,
                    AggregatorInfo { registered_at: current_block, proofs_submitted: 0,
                    active: true })
                &&& final(self)@.events == old(self)@.events.push(Event::AggregatorRegistered {
                    aggregator })
                &&& final(self)@.batches == old(self)@.batches
                &&& final(self)@.requests == old(self)@.requests
                &&& final(self)@.commitments == old(self)@.commitments
                &&& final(self)@.total_proofs_verified == old(self)@.total_proofs_verified
                &&& final(self)@.total_signatures_verified == old(
                    self)@.total_signatures_verified
                &&& final(self)@.expected_vkey_hash == old(self)@.expected_vkey_hash
            },
    {
        if origin != Origin::Root {
            return Err(Error::BadOrigin);
        }
        if self.contains_aggregator(aggregator) {
            return Err(Error::AggregatorAlreadyRegistered);
        }
        self.aggregators.push((aggregator, AggregatorInfo {
            registered_at: current_block,
            proofs_submitted: 0,
            active: true,
        }));
        self.events.push(Event::AggregatorRegistered { aggregator });
        proof {
            lemma_assoc_contains(old(self).aggregators@, aggregator);
            assert(self.aggregators@.drop_last() =~= old(self).aggregators@);
            assert(self.aggregators@.last() == (aggregator, AggregatorInfo {
                registered_at: current_block, proofs_submitted: 0, active: true }));
        }
        Ok(())
    }

    /// Deactivate an aggregator. Privileged; the registry entry stays for
    /// audit, marked inactive.
    pub fn deactivate_aggregator(&mut self, origin: Origin, aggregator: u64) -> (r: Result<(),
        Error>)
        requires
            wf(*old(self)),
        ensures
            wf(*final(self)),
            origin != Origin::Root ==> r == Err::<(), Error>(Error::BadOrigin) && *final(self)
                == *old(self),
            origin == Origin::Root && !old(self)@.aggregators.contains_key(aggregator) ==> r
                == Err::<(), Error>(Error::AggregatorNotFound) && *final(self) == *old(self),
            origin == Origin::Root && old(self)@.aggregators.contains_key(aggregator) ==> {
                &&& r == Ok::<(), Error>(())
                &&& final(self)@.aggregators == old(self)@.aggregators.insert(aggregator,
                    AggregatorInfo { active: false, ..old(self)@.aggregators[aggregator] })
                &&& final(self)@.events == old(self)@.events.push(
                    Event::AggregatorDeactivated { aggregator })
                &&& final(self)@.batches == old(self)@.batches
                &&& final(self)@.requests == old(self)@.requests
                &&& final(self)@.commitments == old(self)@.commitments
                &&& final(self)@.total_proofs_verified == old(self)@.total_proofs_verified
                &&& final(self)@.total_signatures_verified == old(
                    self)@.total_signatures_verified
                &&& final(self)@.expected_vkey_hash == old(self)@.expected_vkey_hash
            },
    {
        if origin != Origin::Root {
            return Err(Error::BadOrigin);
        }
        let n = self.aggregators.len();
        let mut i: usize = 0;
        while i < n
            invariant
                wf(*self),
                *self == *old(self),
                origin == Origin::Root,
                n == self.aggregators@.len(),
                i <= n,
                forall|j: int| 0 <= j < i ==> (#[trigger] self.aggregators@[j]).0 != aggregator,
            decreases n - i,
        {
            if self.aggregators[i].0 == aggregator {
                let info = self.aggregators[i].1;
                self.aggregators.set(i, (aggregator, AggregatorInfo { active: false, ..info }));
                self.events.push(Event::AggregatorDeactivated { aggregator });
                proof {
                    lemma_assoc_get(old(self).aggregators@, i as int);
                    lemma_assoc_update(old(self).aggregators@, i as int, AggregatorInfo {
                        active: false, ..info });
                }
                return Ok(());
            }
            i = i + 1;
        }
        proof {
            lemma_assoc_contains(self.aggregators@, aggregator);
        }
        Err(Error::AggregatorNotFound)
    }

    /// Whether an account appears in the registry at all.
    fn contains_aggregator(&self, account: u64) -> (r: bool)
        ensures
            r == self@.aggregators.contains_key(account),
    {
        let n = self.aggregators.len();
        let mut i: usize = 0;
        while i < n
            invariant
                n == self.aggregators@.len(),
                i <= n,
                forall|j: int| 0 <= j < i ==> (#[trigger] self.aggregators@[j]).0 != account,
            decreases n - i,
        {
            if self.aggregators[i].0 == account {
                proof {
                    lemma_assoc_contains(self.aggregators@, account);
                }
                return true;
            }
            i = i + 1;
        }
        proof {
            lemma_assoc_contains(self.aggregators@, account);
        }
        false
    }
}

/// Two 32-byte arrays hold the same bytes.
fn bytes32_eq(a: &[u8; 32], b: &[u8; 32]) -> (r: bool)
    ensures
        r == (a@ == b@),
{
    let mut i: usize = 0;
    while i < 32
        invariant
            i <= 32,
            forall|j: int| 0 <= j < i ==> a@[j] == b@[j],
        decreases 32 - i,
    {
        if a[i] != b[i] {
            return false;
        }
        i = i + 1;
    }
    proof {
        assert(a@ =~= b@);
    }
    true
}

/// Append the little-endian bytes of a 64-bit value.
fn push_le64(out: &mut Vec<u8>, v: u64)
    ensures
        final(out)@ == old(out)@ + spec_le64(v),
{
    let mut b: usize = 0;
    while b < 8
        invariant
            b <= 8,
            out@.len() == old(out)@.len() + b,
            forall|j: int| 0 <= j < old(out)@.len() ==> out@[j] == old(out)@[j],
            forall|j: int| 0 <= j < b ==> out@[old(out)@.len() + j] == spec_le64(v)[j],
        decreases 8 - b,
    {
        let sh = (b as u64) * 8;
        proof {
            assert((v >> sh) & 0xff < 256) by (bit_vector);
        }
        out.push(((v >> sh) & 0xff) as u8);
        b = b + 1;
    }
    proof {
        assert(out@ =~= old(out)@ + spec_le64(v));
    }
}

/// Append the little-endian bytes of a 32-bit value.
fn push_le32(out: &mut Vec<u8>, v: u32)
    ensures
        final(out)@ == old(out)@ + spec_le32(v),
{
    proof {
        let c = v;
        assert(c & 0xff < 256 && (c >> 8) & 0xff < 256 && (c >> 16) & 0xff < 256 && (c >> 24)
            & 0xff < 256) by (bit_vector);
    }
    out.push((v & 0xff) as u8);
    out.push(((v >> 8) & 0xff) as u8);
    out.push(((v >> 16) & 0xff) as u8);
    out.push(((v >> 24) & 0xff) as u8);
    proof {
        assert(out@ =~= old(out)@ + spec_le32(v));
    }
}

/// Copy a 32-byte digest out of a vector.
fn to_bytes32(v: &Vec<u8>) -> (r: [u8; 32])
    requires
        v@.len() == 32,
    ensures
        r@ == v@,
{
    let mut r = [0u8; 32];
    let mut i: usize = 0;
    while i < 32
        invariant
            v@.len() == 32,
            i <= 32,
            forall|j: int| 0 <= j < i ==> r@[j] == v@[j],
        decreases 32 - i,
    {
        r.set(i, v[i]);
        i = i + 1;
    }
    proof {
        assert(r@ =~= v@);
    }
    r
}

/// The commitment table holds a key exactly when some entry carries it.
proof fn lemma_cmap_contains(s: Seq<([u8; 32], u64)>, k: Seq<u8>)
    ensures
        spec_commitments_map(s).contains_key(k) <==> exists|i: int| 0 <= i < s.len() && (
        #[trigger] s[i]).0@ == k,
    decreases s.len(),
{
    if s.len() > 0 {
        lemma_cmap_contains(s.drop_last(), k);
        if spec_commitments_map(s).contains_key(k) {
            if s.last().0@ == k {
                assert(s[s.len() - 1].0@ == k);
            } else {
                let i = choose|i: int| 0 <= i < s.drop_last().len() && (#[trigger] s.drop_last()[
                    i]).0@ == k;
                assert(s[i].0@ == k);
            }
        }
        if exists|i: int| 0 <= i < s.len() && (#[trigger] s[i]).0@ == k {
            let i = choose|i: int| 0 <= i < s.len() && (#[trigger] s[i]).0@ == k;
            if i < s.len() - 1 {
                assert(s.drop_last()[i].0@ == k);
            }
        }
    }
}

/// The batch table holds a key exactly when some entry carries it.
proof fn lemma_bmap_contains(s: Seq<(u64, BatchInfo)>, k: u64)
    ensures
        spec_batches_map(s).contains_key(k) <==> exists|i: int| 0 <= i < s.len() && (
        #[trigger] s[i]).0 == k,
    decreases s.len(),
{
    if s.len() > 0 {
        lemma_bmap_contains(s.drop_last(), k);
        if spec_batches_map(s).contains_key(k) {
            if s.last().0 == k {
                assert(s[s.len() - 1].0 == k);
            } else {
                let i = choose|i: int| 0 <= i < s.drop_last().len() && (#[trigger] s.drop_last()[
                    i]).0 == k;
                assert(s[i].0 == k);
            }
        }
        if exists|i: int| 0 <= i < s.len() && (#[trigger] s[i]).0 == k {
            let i = choose|i: int| 0 <= i < s.len() && (#[trigger] s[i]).0 == k;
            if i < s.len() - 1 {
                assert(s.drop_last()[i].0 == k);
            }
        }
    }
}

impl Pallet {
    /// Compute the replay-guard commitment of a submission.
    pub fn compute_proof_commitment(submission: &ProofSubmission) -> (r: [u8; 32])
        ensures
            r@ == spec_commitment_key(*submission),
    {
        let proof_hash = keccak256(submission.proof.as_slice());
        let mut data: Vec<u8> = Vec::new();
        data.extend_from_slice(submission.vkey_hash.as_slice());
        proof {
            assert(data@ =~= submission.vkey_hash@);
        }
        push_le64(&mut data, submission.batch_id);
        data.extend_from_slice(submission.public_values.requests_root.as_slice());
        data.extend_from_slice(proof_hash.as_slice());
        proof {
            assert(data@ =~= submission.vkey_hash@ + spec_le64(submission.batch_id)
                + submission.public_values.requests_root@ + spec_keccak256(submission.proof@));
        }
        let digest = keccak256(data.as_slice());
        to_bytes32(&digest)
    }

    /// The structural proof-validity check: this stands in for full
    /// cryptographic proof verification and is the one place a production
    /// deployment must plug in a complete checker.
    pub fn verify_sp1_proof(proof: &[u8], public_values: &PublicValues) -> (r: bool)
        ensures
            r == spec_verify_sp1_proof(proof@, *public_values),
    {
        if proof.len() < MIN_PROOF_SIZE && proof.len() != GROTH16_PROOF_SIZE {
            return false;
        }
        if public_values.verified_count == 0 {
            return false;
        }
        if public_values.verified_count as usize != public_values.verified_request_ids.len() {
            return false;
        }
        // The proof should embed a digest of the public values; scan for a
        // window that agrees closely with it.
        let mut data: Vec<u8> = Vec::new();
        data.push(public_values.version);
        push_le32(&mut data, public_values.chain_id);
        push_le64(&mut data, public_values.batch_id);
        push_le32(&mut data, public_values.verified_count);
        data.extend_from_slice(public_values.requests_root.as_slice());
        proof {
            assert(data@ =~= seq![public_values.version] + spec_le32(public_values.chain_id)
                + spec_le64(public_values.batch_id) + spec_le32(public_values.verified_count)
                + public_values.requests_root@);
        }
        let public_hash = keccak256(data.as_slice());
        let ghost ph = public_hash@;
        let mut found = false;
        let mut i: usize = 0;
        let plen = proof.len();
        if plen > 32 {
            while i + 32 < plen && !found
                invariant
                    plen == proof@.len(),
                    public_hash@.len() == 32,
                    ph == public_hash@,
                    i + 32 <= plen,
                    found ==> 0 <= i && i + 32 < proof@.len() && spec_eq_count(proof@, ph,
                        i as int, 32) >= 28,
                    !found ==> forall|m: int| 0 <= m < i ==> !(spec_eq_count(proof@, ph, m, 32)
                        >= 28),
                decreases (if found { 0int } else { proof@.len() - i + 1 }),
            {
                let mut eq: usize = 0;
                let mut j: usize = 0;
                while j < 32
                    invariant
                        plen == proof@.len(),
                        public_hash@.len() == 32,
                        ph == public_hash@,
                        i + 32 < plen,
                        j <= 32,
                        eq == spec_eq_count(proof@, ph, i as int, j as int),
                        eq <= j,
                    decreases 32 - j,
                {
                    if proof[i + j] == public_hash[j] {
                        eq = eq + 1;
                    }
                    j = j + 1;
                }
                if eq >= 28 {
                    found = true;
                } else {
                    i = i + 1;
                }
            }
        }
        if !found && proof.len() < 1000 {
            proof {
                assert(!spec_binding(proof@, ph));
            }
            return false;
        }
        proof {
            if !found {
                assert(proof@.len() >= 1000);
            }
        }
        true
    }

    /// Submit a proof bundle: the ordered checks of the admission machine,
    /// atomic state update on success, an auditable rejection event when
    /// only the proof-validity check fails.
    pub fn submit_proof(&mut self, origin: Origin, submission: ProofSubmission, current_block:
        u64) -> (r: Result<(), Error>)
        requires
            wf(*old(self)),
        ensures
            wf(*final(self)),
            final(self)@ == spec_submit(old(self)@, origin, submission, current_block).0,
            r == spec_submit(old(self)@, origin, submission, current_block).1,
    {
        let account = match origin {
            Origin::Signed(a) => a,
            _ => {
                return Err(Error::BadOrigin);
            },
        };
        // Authorization.
        let mut agg_idx: usize = 0;
        let mut agg_found = false;
        let n = self.aggregators.len();
        while agg_idx < n && !agg_found
            invariant
                n == self.aggregators@.len(),
                agg_idx <= n,
                agg_found ==> agg_idx < n && self.aggregators@[agg_idx as int].0 == account,
                !agg_found ==> forall|j: int| 0 <= j < agg_idx ==> (
                #[trigger] self.aggregators@[j]).0 != account,
            decreases (if agg_found { 0int } else { n - agg_idx + 1 }),
        {
            if self.aggregators[agg_idx].0 == account {
                agg_found = true;
            } else {
                agg_idx = agg_idx + 1;
            }
        }
        proof {
            lemma_assoc_contains(self.aggregators@, account);
            if agg_found {
                lemma_assoc_get(self.aggregators@, agg_idx as int);
            }
        }
        if !agg_found {
            return Err(Error::NotAuthorized);
        }
        let aggregator_info = self.aggregators[agg_idx].1;
        if !aggregator_info.active {
            return Err(Error::NotAuthorized);
        }
        // The batch must be unseen.
        if self.contains_batch(submission.batch_id) {
            return Err(Error::BatchAlreadyVerified);
        }
        // The public values must carry the expected tags and batch.
        if submission.public_values.version != REML_VERSION {
            return Err(Error::InvalidPublicValues);
        }
        if submission.public_values.chain_id != TESSERAX_CHAIN_ID {
            return Err(Error::InvalidPublicValues);
        }
        if submission.public_values.batch_id != submission.batch_id {
            return Err(Error::InvalidPublicValues);
        }
        // Key binding, when a key hash is configured.
        let zero32 = [0u8; 32];
        proof {
            assert(zero32@ =~= spec_zero32());
        }
        if !bytes32_eq(&self.expected_vkey_hash, &zero32) {
            if !bytes32_eq(&submission.vkey_hash, &self.expected_vkey_hash) {
                return Err(Error::InvalidVKeyHash);
            }
        }
        // Replay guard.
        let commitment = Self::compute_proof_commitment(&submission);
        if self.contains_commitment(&commitment) {
            return Err(Error::ProofAlreadyUsed);
        }
        // Independent Merkle recomputation.
        let computed_root = compute_merkle_root(&submission.public_values.verified_request_ids);
        let claimed_root = vstd::slice::slice_to_vec(
            submission.public_values.requests_root.as_slice());
        let mut roots_equal = true;
        let mut ri: usize = 0;
        while ri < 32
            invariant
                computed_root@.len() == 32,
                claimed_root@.len() == 32,
                claimed_root@ == submission.public_values.requests_root@,
                ri <= 32,
                roots_equal == (forall|j: int| 0 <= j < ri ==> computed_root@[j]
                    == claimed_root@[j]),
            decreases 32 - ri,
        {
            if computed_root[ri] != claimed_root[ri] {
                roots_equal = false;
            }
            ri = ri + 1;
        }
        proof {
            if roots_equal {
                assert(computed_root@ =~= submission.public_values.requests_root@);
            }
        }
        if !roots_equal {
            return Err(Error::InvalidMerkleRoot);
        }
        // Structural proof validity; a failure here is auditable.
        if !Self::verify_sp1_proof(submission.proof.as_slice(), &submission.public_values) {
            self.events.push(Event::ProofRejected {
                batch_id: submission.batch_id,
                aggregator: account,
                reason: RejectReason::StarkVerificationFailed,
            });
            proof {
                assert(self@ =~~= spec_submit(old(self)@, origin, submission,
                    current_block).0);
            }
            return Err(Error::ProofVerificationFailed);
        }
        // All checks passed: apply the whole update.
        self.proof_commitments.push((commitment, current_block));
        proof {
            assert(self.proof_commitments@.drop_last() =~= old(self).proof_commitments@);
            lemma_cmap_contains(old(self).proof_commitments@, commitment@);
        }
        self.verified_batches.push((submission.batch_id, BatchInfo {
            aggregator: account,
            verified_at: current_block,
            signature_count: submission.public_values.verified_count,
            requests_root: submission.public_values.requests_root,
            proof_commitment: commitment,
        }));
        proof {
            assert(self.verified_batches@.drop_last() =~= old(self).verified_batches@);
            lemma_bmap_contains(old(self).verified_batches@, submission.batch_id);
        }
        // Record every verified request identifier.
        let ghost requests_before = spec_assoc(self.verified_requests@);
        let ghost commitments_after = self.proof_commitments@;
        let ghost batches_after = self.verified_batches@;
        proof {
            assert(submission.public_values.verified_request_ids@.skip(0)
                =~= submission.public_values.verified_request_ids@);
        }
        let ids = &submission.public_values.verified_request_ids;
        let mut i: usize = 0;
        while i < ids.len()
            invariant
                ids@ == submission.public_values.verified_request_ids@,
                i <= ids@.len(),
                wf(*self),
                self.expected_vkey_hash == old(self).expected_vkey_hash,
                self.aggregators == old(self).aggregators,
                self.verified_batches@ == batches_after,
                self.total_proofs_verified == old(self).total_proofs_verified,
                self.total_signatures_verified == old(self).total_signatures_verified,
                self.proof_commitments@ == commitments_after,
                self.events == old(self).events,
                spec_mark_verified(requests_before, ids@, submission.batch_id, current_block)
                    == spec_mark_verified(spec_assoc(self.verified_requests@), ids@.skip(
                    i as int), submission.batch_id, current_block),
            decreases ids@.len() - i,
        {
            let id = ids[i];
            proof {
                assert(ids@.skip(i as int)[0] == id);
                assert(ids@.skip(i as int).skip(1) =~= ids@.skip(i + 1));
            }
            self.mark_request_verified(id, submission.batch_id, current_block);
            i = i + 1;
        }
        proof {
            assert(ids@.skip(ids@.len() as int) =~= Seq::<u64>::empty());
        }
        // Counters, registry bump, acceptance event.
        let bumped = if aggregator_info.proofs_submitted < u64::MAX {
            aggregator_info.proofs_submitted + 1
        } else {
            u64::MAX
        };
        self.aggregators.set(agg_idx, (account, AggregatorInfo {
            proofs_submitted: bumped,
            ..aggregator_info
        }));
        proof {
            lemma_assoc_update(old(self).aggregators@, agg_idx as int, AggregatorInfo {
                proofs_submitted: bumped, ..aggregator_info });
        }
        self.total_proofs_verified = if self.total_proofs_verified < u64::MAX {
            self.total_proofs_verified + 1
        } else {
            u64::MAX
        };
        let count64 = submission.public_values.verified_count as u64;
        self.total_signatures_verified = if self.total_signatures_verified <= u64::MAX - count64 {
            self.total_signatures_verified + count64
        } else {
            u64::MAX
        };
        self.events.push(Event::ProofVerified {
            batch_id: submission.batch_id,
            aggregator: account,
            signature_count: submission.public_values.verified_count,
            block_number: current_block,
        });
        proof {
            assert(self@ =~~= spec_submit(old(self)@, origin, submission, current_block).0);
        }
        Ok(())
    }

    /// Record one request identifier as verified; a later batch overwrites
    /// an earlier entry, as the underlying store's insert does.
    fn mark_request_verified(&mut self, id: u64, batch_id: u64, block: u64)
        requires
            wf(*old(self)),
        ensures
            wf(*final(self)),
            final(self).expected_vkey_hash == old(self).expected_vkey_hash,
            final(self).aggregators == old(self).aggregators,
            final(self).verified_batches == old(self).verified_batches,
            final(self).total_proofs_verified == old(self).total_proofs_verified,
            final(self).total_signatures_verified == old(self).total_signatures_verified,
            final(self).proof_commitments == old(self).proof_commitments,
            final(self).events == old(self).events,
            spec_assoc(final(self).verified_requests@) == spec_assoc(old(
                self).verified_requests@).insert(id, (batch_id, block)),
    {
        let n = self.verified_requests.len();
        let mut i: usize = 0;
        while i < n
            invariant
                wf(*self),
                *self == *old(self),
                n == self.verified_requests@.len(),
                i <= n,
                forall|j: int| 0 <= j < i ==> (#[trigger] self.verified_requests@[j]).0 != id,
            decreases n - i,
        {
            if self.verified_requests[i].0 == id {
                self.verified_requests.set(i, (id, (batch_id, block)));
                proof {
                    lemma_assoc_update(old(self).verified_requests@, i as int, (batch_id,
                        block));
                }
                return ;
            }
            i = i + 1;
        }
        self.verified_requests.push((id, (batch_id, block)));
        proof {
            assert(self.verified_requests@.drop_last() =~= old(self).verified_requests@);
            lemma_assoc_contains(old(self).verified_requests@, id);
        }
    }

    /// Whether a batch identifier has been accepted.
    fn contains_batch(&self, batch_id: u64) -> (r: bool)
        ensures
            r == self@.batches.contains_key(batch_id),
    {
        let n = self.verified_batches.len();
        let mut i: usize = 0;
        while i < n
            invariant
                n == self.verified_batches@.len(),
                i <= n,
                forall|j: int| 0 <= j < i ==> (#[trigger] self.verified_batches@[j]).0
                    != batch_id,
            decreases n - i,
        {
            if self.verified_batches[i].0 == batch_id {
                proof {
                    lemma_bmap_contains(self.verified_batches@, batch_id);
                }
                return true;
            }
            i = i + 1;
        }
        proof {
            lemma_bmap_contains(self.verified_batches@, batch_id);
        }
        false
    }

    /// Whether a commitment has already been admitted.
    fn contains_commitment(&self, commitment: &[u8; 32]) -> (r: bool)
        ensures
            r == self@.commitments.contains_key(commitment@),
    {
        let n = self.proof_commitments.len();
        let mut i: usize = 0;
        while i < n
            invariant
                n == self.proof_commitments@.len(),
                i <= n,
                forall|j: int| 0 <= j < i ==> (#[trigger] self.proof_commitments@[j]).0@
                    != commitment@,
            decreases n - i,
        {
            if bytes32_eq(&self.proof_commitments[i].0, commitment) {
                proof {
                    lemma_cmap_contains(self.proof_commitments@, commitment@);
                }
                return true;
            }
            i = i + 1;
        }
        proof {
            lemma_cmap_contains(self.proof_commitments@, commitment@);
        }
        false
    }

    /// Whether a request identifier has been verified in some accepted
    /// batch.
    pub fn is_request_verified(&self, request_id: u64) -> (r: bool)
        ensures
            r == self@.requests.contains_key(request_id),
    {
        let n = self.verified_requests.len();
        let mut i: usize = 0;
        while i < n
            invariant
                n == self.verified_requests@.len(),
                i <= n,
                forall|j: int| 0 <= j < i ==> (#[trigger] self.verified_requests@[j]).0
                    != request_id,
            decreases n - i,
        {
            if self.verified_requests[i].0 == request_id {
                proof {
                    lemma_assoc_contains(self.verified_requests@, request_id);
                }
                return true;
            }
            i = i + 1;
        }
        proof {
            lemma_assoc_contains(self.verified_requests@, request_id);
        }
        false
    }

    /// The batch and block a request identifier was verified in, if any.
    pub fn get_verification_info(&self, request_id: u64) -> (r: Option<(u64, u64)>)
        requires
            wf(*self),
        ensures
            match r {
                Some(info) => self@.requests.contains_key(request_id) && self@.requests[
                    request_id] == info,
                None => !self@.requests.contains_key(request_id),
            },
    {
        let n = self.verified_requests.len();
        let mut i: usize = 0;
        while i < n
            invariant
                wf(*self),
                n == self.verified_requests@.len(),
                i <= n,
                forall|j: int| 0 <= j < i ==> (#[trigger] self.verified_requests@[j]).0
                    != request_id,
            decreases n - i,
        {
            if self.verified_requests[i].0 == request_id {
                proof {
                    lemma_assoc_get(self.verified_requests@, i as int);
                }
                return Some(self.verified_requests[i].1);
            }
            i = i + 1;
        }
        proof {
            lemma_assoc_contains(self.verified_requests@, request_id);
        }
        None
    }

    /// Whether an account is a registered, active aggregator.
    pub fn is_aggregator(&self, account: u64) -> (r: bool)
        requires
            wf(*self),
        ensures
            r == spec_authorized(self@, account),
    {
        let n = self.aggregators.len();
        let mut i: usize = 0;
        while i < n
            invariant
                wf(*self),
                n == self.aggregators@.len(),
                i <= n,
                forall|j: int| 0 <= j < i ==> (#[trigger] self.aggregators@[j]).0 != account,
            decreases n - i,
        {
            if self.aggregators[i].0 == account {
                proof {
                    lemma_assoc_get(self.aggregators@, i as int);
                }
                return self.aggregators[i].1.active;
            }
            i = i + 1;
        }
        proof {
            lemma_assoc_contains(self.aggregators@, account);
        }
        false
    }

    /// The registry entry of an account, if any.
    pub fn aggregators(&self, account: u64) -> (r: Option<AggregatorInfo>)
        requires
            wf(*self),
        ensures
            match r {
                Some(info) => self@.aggregators.contains_key(account) && self@.aggregators[
                    account] == info,
                None => !self@.aggregators.contains_key(account),
            },
    {
        let n = self.aggregators.len();
        let mut i: usize = 0;
        while i < n
            invariant
                wf(*self),
                n == self.aggregators@.len(),
                i <= n,
                forall|j: int| 0 <= j < i ==> (#[trigger] self.aggregators@[j]).0 != account,
            decreases n - i,
        {
            if self.aggregators[i].0 == account {
                proof {
                    lemma_assoc_get(self.aggregators@, i as int);
                }
                return Some(self.aggregators[i].1);
            }
            i = i + 1;
        }
        proof {
            lemma_assoc_contains(self.aggregators@, account);
        }
        None
    }

    /// The record of an accepted batch, if any.
    pub fn verified_batches(&self, batch_id: u64) -> (r: Option<&BatchInfo>)
        requires
            wf(*self),
        ensures
            match r {
                Some(info) => self@.batches.contains_key(batch_id) && self@.batches[batch_id]
                    == spec_batch_view(*info),
                None => !self@.batches.contains_key(batch_id),
            },
    {
        let n = self.verified_batches.len();
        let mut i: usize = 0;
        while i < n
            invariant
                wf(*self),
                n == self.verified_batches@.len(),
                i <= n,
                forall|j: int| 0 <= j < i ==> (#[trigger] self.verified_batches@[j]).0
                    != batch_id,
            decreases n - i,
        {
            if self.verified_batches[i].0 == batch_id {
                proof {
                    lemma_bmap_get(self.verified_batches@, i as int);
                }
                return Some(&self.verified_batches[i].1);
            }
            i = i + 1;
        }
        proof {
            lemma_bmap_contains(self.verified_batches@, batch_id);
        }
        None
    }

    /// Number of accepted submissions.
    pub fn total_proofs_verified(&self) -> (r: u64)
        ensures
            r == self@.total_proofs_verified,
    {
        self.total_proofs_verified
    }

    /// Number of signatures certified by accepted submissions.
    pub fn total_signatures_verified(&self) -> (r: u64)
        ensures
            r == self@.total_signatures_verified,
    {
        self.total_signatures_verified
    }
}

/// In a well-formed batch table, the abstract map sends each key to its
/// entry's record view.
proof fn lemma_bmap_get(s: Seq<(u64, BatchInfo)>, i: int)
    requires
        0 <= i < s.len(),
        forall|a: int, b: int| 0 <= a < b < s.len() ==> (#[trigger] s[a]).0 != (#[trigger] s[
            b]).0,
    ensures
        spec_batches_map(s).contains_key(s[i].0),
        spec_batches_map(s)[s[i].0] == spec_batch_view(s[i].1),
    decreases s.len(),
{
    if i == s.len() - 1 {
    } else {
        assert(forall|a: int, b: int| 0 <= a < b < s.drop_last().len() ==> (#[trigger] s.drop_last()[
            a]).0 != (#[trigger] s.drop_last()[b]).0);
        lemma_bmap_get(s.drop_last(), i);
        assert(s[i].0 != s.last().0);
    }
}

/// Inserting identifiers never removes one: every identifier the ledger
/// held before a marking pass is still held after it.
proof fn lemma_mark_verified_persists(m: Map<u64, (u64, u64)>, ids: Seq<u64>, batch_id: u64,
    block: u64, id: u64)
    requires
        m.contains_key(id),
    ensures
        spec_mark_verified(m, ids, batch_id, block).contains_key(id),
    decreases ids.len(),
{
    if ids.len() > 0 {
        lemma_mark_verified_persists(m.insert(ids[0], (batch_id, block)), ids.skip(1),
            batch_id, block, id);
    }
}

/// The verified-request ledger is durable: no transition, accepted or
/// rejected, removes an identifier once recorded.
pub proof fn lemma_requests_never_removed(v: StateView, origin: Origin, sub: ProofSubmission,
    block: u64, id: u64)
    requires
        v.requests.contains_key(id),
    ensures
        spec_submit(v, origin, sub, block).0.requests.contains_key(id),
{
    match origin {
        Origin::Signed(account) => {
            if spec_authorized(v, account) && !v.batches.contains_key(sub.batch_id)
                && spec_pv_ok(sub) && spec_vkey_ok(v, sub) && !v.commitments.contains_key(
                spec_commitment_key(sub)) && spec_root_ok(sub) && spec_verify_sp1_proof(
                sub.proof@, sub.public_values) {
                lemma_mark_verified_persists(v.requests,
                    sub.public_values.verified_request_ids@, sub.batch_id, block, id);
            }
        },
        _ => {},
    }
}

/// What an accepted batch records is sound against the commitment scheme:
/// its stored root is the Merkle root of exactly the identifiers written
/// to the ledger, the cross-check the trust model rests on.
pub proof fn lemma_accepted_root_sound(
    v: StateView,
    v1: StateView,
    origin: Origin,
    sub: ProofSubmission,
    block: u64,
)
    requires
        spec_submit(v, origin, sub, block) == (v1, Ok::<(), Error>(())),
    ensures
        v1.batches.contains_key(sub.batch_id),
        v1.batches[sub.batch_id].3 == spec_merkle_root(
            sub.public_values.verified_request_ids@),
        v1.batches[sub.batch_id].2 == sub.public_values.verified_count,
{
    match origin {
        Origin::Signed(account) => {
        },
        _ => {
            assert(false);
        },
    }
}

/// A submission whose replay-guard commitment is already in the store is
/// rejected with the replay error and leaves the state unchanged, whatever
/// its batch identifier: the commitment, not the batch identifier, is the
/// replay key.
pub proof fn lemma_commitment_guard(v: StateView, account: u64, sub: ProofSubmission, block:
    u64)
    requires
        spec_authorized(v, account),
        !v.batches.contains_key(sub.batch_id),
        spec_pv_ok(sub),
        spec_vkey_ok(v, sub),
        v.commitments.contains_key(spec_commitment_key(sub)),
    ensures
        spec_submit(v, Origin::Signed(account), sub, block) == (v, Err::<(), Error>(
        Error::ProofAlreadyUsed)),
{
}

/// A submission accepted once is rejected on resubmission, bit for bit:
/// the accepting transition closes its batch identifier and stores its
/// commitment, and every rejection path leaves the state unchanged.
pub proof fn lemma_replay_rejected(
    v0: StateView,
    v1: StateView,
    origin1: Origin,
    origin2: Origin,
    sub: ProofSubmission,
    b1: u64,
    b2: u64,
)
    requires
        spec_submit(v0, origin1, sub, b1) == (v1, Ok::<(), Error>(())),
    ensures
        spec_submit(v1, origin2, sub, b2).1 is Err,
        spec_submit(v1, origin2, sub, b2).0 == v1,
{
}

/// Resubmitting an accepted bundle under a different batch identifier,
/// with its public values untouched, is still rejected with the state
/// unchanged: the committed batch identifier no longer matches the claimed
/// one.
pub proof fn lemma_commitment_binding(
    v0: StateView,
    v1: StateView,
    origin1: Origin,
    origin2: Origin,
    sub1: ProofSubmission,
    sub2: ProofSubmission,
    b1: u64,
    b2: u64,
)
    requires
        spec_submit(v0, origin1, sub1, b1) == (v1, Ok::<(), Error>(())),
        sub2.public_values == sub1.public_values,
        sub2.batch_id != sub1.batch_id,
    ensures
        spec_submit(v1, origin2, sub2, b2).1 is Err,
        spec_submit(v1, origin2, sub2, b2).0 == v1,
{
    match origin1 {
        Origin::Signed(a) => {
            assert(spec_pv_ok(sub1));
            assert(!spec_pv_ok(sub2));
        },
        _ => {
            assert(false);
        },
    }
}

/// A submission from an account that is not a registered, active
/// aggregator is rejected with the authorization error before any other
/// check runs, and leaves the state unchanged.
pub proof fn lemma_unauthorized_rejected(v: StateView, account: u64, sub: ProofSubmission,
    block: u64)
    requires
        !spec_authorized(v, account),
    ensures
        spec_submit(v, Origin::Signed(account), sub, block) == (v, Err::<(), Error>(
        Error::NotAuthorized)),
{
}

/// Updating the entry at `i` in place, keeping its key, updates the
/// abstract map at that key.
proof fn lemma_assoc_update<K, V>(s: Seq<(K, V)>, i: int, v: V)
    requires
        0 <= i < s.len(),
        forall|a: int, b: int| 0 <= a < b < s.len() ==> (#[trigger] s[a]).0 != (#[trigger] s[
            b]).0,
    ensures
        spec_assoc(s.update(i, (s[i].0, v))) == spec_assoc(s).insert(s[i].0, v),
    decreases s.len(),
{
    let s2 = s.update(i, (s[i].0, v));
    if i == s.len() - 1 {
        assert(s2.drop_last() =~= s.drop_last());
        assert(spec_assoc(s2) =~= spec_assoc(s).insert(s[i].0, v));
    } else {
        assert(s2.drop_last() =~= s.drop_last().update(i, (s[i].0, v)));
        assert(forall|a: int, b: int| 0 <= a < b < s.drop_last().len() ==> (#[trigger] s.drop_last()[
            a]).0 != (#[trigger] s.drop_last()[b]).0);
        lemma_assoc_update(s.drop_last(), i, v);
        assert(s[i].0 != s.last().0);
        assert(spec_assoc(s2) == spec_assoc(s2.drop_last()).insert(s.last().0, s.last().1));
        assert(spec_assoc(s2) =~= spec_assoc(s).insert(s[i].0, v));
    }
}

} // verus!
