//! The collector's decision core: buffer incoming requests, close a batch
//! when the configured size is reached, and build the responses the serving
//! layer writes back. Accepting connections and proving batches is the
//! serving layer's work; every decision is made here.

use vstd::prelude::*;
use vstd::string::{StringExecFns, StringSliceAdditionalSpecFns};

use crate::params::{REML_VERSION, TESSERAX_CHAIN_ID};
use crate::types::{RemlProofInput, SignatureRequest};

verus! {

/// The collector's mutable state: the open buffer, the configured batch
/// size, and the number of batches closed so far.
pub struct AggregatorState {
    /// Requests waiting for the batch to fill, in arrival order.
    pub pending_requests: Vec<SignatureRequest>,
    /// Number of requests that closes a batch.
    pub batch_size: usize,
    /// Number of batches closed; the next batch gets the next number.
    pub batch_counter: u64,
}

/// What the collector decides for one submitted request.
pub enum SubmitOutcome {
    /// The request carried a key or signature of the wrong size.
    Rejected,
    /// The request was buffered; the batch is still open.
    Accepted { pending: usize },
    /// The request completed a batch: the whole buffer becomes this batch
    /// input and a fresh buffer opens.
    BatchReady { batch_id: u64, input: RemlProofInput },
}

impl AggregatorState {
    /// A fresh collector with an empty buffer.
    pub fn new(batch_size: usize) -> (r: AggregatorState)
        ensures
            r.pending_requests@ == Seq::<SignatureRequest>::empty(),
            r.batch_size == batch_size,
            r.batch_counter == 0,
    {
        AggregatorState { pending_requests: Vec::new(), batch_size, batch_counter: 0 }
    }

    /// Take one submitted request: reject a malformed one, buffer a valid
    /// one, and close the batch when the buffer reaches the configured
    /// size.
    pub fn handle_submit(&mut self, request: SignatureRequest) -> (r: SubmitOutcome)
        requires
            old(self).batch_counter < u64::MAX,
            old(self).pending_requests@.len() < usize::MAX,
        ensures
            !request.spec_valid_sizes() ==> *final(self) == *old(self) && (r matches
                SubmitOutcome::Rejected),
            request.spec_valid_sizes() && old(self).pending_requests@.len() + 1 < old(
                self).batch_size ==> {
                &&& final(self).pending_requests@ == old(self).pending_requests@.push(request)
                &&& final(self).batch_size == old(self).batch_size
                &&& final(self).batch_counter == old(self).batch_counter
                &&& r matches SubmitOutcome::Accepted { pending } && pending == old(
                    self).pending_requests@.len() + 1
            },
            request.spec_valid_sizes() && old(self).pending_requests@.len() + 1 >= old(
                self).batch_size ==> {
                &&& final(self).pending_requests@ == Seq::<SignatureRequest>::empty()
                &&& final(self).batch_size == old(self).batch_size
                &&& final(self).batch_counter == old(self).batch_counter + 1
                &&& r matches SubmitOutcome::BatchReady { batch_id, input } && batch_id == old(
                    self).batch_counter + 1 && input.version == REML_VERSION && input.chain_id
                    == TESSERAX_CHAIN_ID && input.batch_id == old(self).batch_counter + 1
                    && input.requests@ == old(self).pending_requests@.push(request)
            },
    {
        if !request.validate_sizes() {
            return SubmitOutcome::Rejected;
        }
        self.pending_requests.push(request);
        let pending = self.pending_requests.len();
        if pending >= self.batch_size {
            let requests = self.pending_requests.split_off(0);
            self.batch_counter = self.batch_counter + 1;
            let batch_id = self.batch_counter;
            SubmitOutcome::BatchReady { batch_id, input: RemlProofInput::new(requests, batch_id) }
        } else {
            SubmitOutcome::Accepted { pending }
        }
    }

    /// The pending request identifiers, in arrival order.
    pub fn pending_ids(&self) -> (r: Vec<u64>)
        ensures
            r@.len() == self.pending_requests@.len(),
            forall|i: int| 0 <= i < r@.len() ==> r@[i] == self.pending_requests@[i].request_id,
    {
        let mut ids: Vec<u64> = Vec::new();
        let mut i: usize = 0;
        while i < self.pending_requests.len()
            invariant
                i <= self.pending_requests@.len(),
                ids@.len() == i,
                forall|j: int| 0 <= j < i ==> ids@[j] == self.pending_requests@[j].request_id,
            decreases self.pending_requests@.len() - i,
        {
            ids.push(self.pending_requests[i].request_id);
            i = i + 1;
        }
        ids
    }
}

/// The decimal digits of a nonnegative number, most significant first.
pub open spec fn spec_dec(n: int) -> Seq<char>
    decreases n,
{
    if n < 0 {
        Seq::empty()
    } else if n < 10 {
        seq![spec_digit(n)]
    } else {
        spec_dec(n / 10) + seq![spec_digit(n % 10)]
    }
}

/// The character of one decimal digit.
pub open spec fn spec_digit(d: int) -> char {
    if d == 0 {
        '0'
    } else if d == 1 {
        '1'
    } else if d == 2 {
        '2'
    } else if d == 3 {
        '3'
    } else if d == 4 {
        '4'
    } else if d == 5 {
        '5'
    } else if d == 6 {
        '6'
    } else if d == 7 {
        '7'
    } else if d == 8 {
        '8'
    } else {
        '9'
    }
}

/// One decimal digit as a string slice.
fn digit_str(d: u64) -> (r: &'static str)
    requires
        d < 10,
    ensures
        r@ == seq![spec_digit(d as int)],
{
    proof {
        reveal_strlit("0");
        reveal_strlit("1");
        reveal_strlit("2");
        reveal_strlit("3");
        reveal_strlit("4");
        reveal_strlit("5");
        reveal_strlit("6");
        reveal_strlit("7");
        reveal_strlit("8");
        reveal_strlit("9");
    }
    if d == 0 {
        "0"
    } else if d == 1 {
        "1"
    } else if d == 2 {
        "2"
    } else if d == 3 {
        "3"
    } else if d == 4 {
        "4"
    } else if d == 5 {
        "5"
    } else if d == 6 {
        "6"
    } else if d == 7 {
        "7"
    } else if d == 8 {
        "8"
    } else {
        "9"
    }
}

/// Format a number in decimal.
pub fn u64_to_string(n: u64) -> (r: String)
    ensures
        r@ == spec_dec(n as int),
    decreases n,
{
    if n < 10 {
        String::from_str(digit_str(n))
    } else {
        let mut s = u64_to_string(n / 10);
        s.append(digit_str(n % 10));
        proof {
            assert(s@ =~= spec_dec(n as int));
        }
        s
    }
}

/// The response the serving layer writes back: status line, fixed headers,
/// byte length of the body, blank line, body.
pub open spec fn spec_http_response(status: u16, status_text: &str, body: &str) -> Seq<char> {
    "HTTP/1.1 "@ + spec_dec(status as int) + " "@ + status_text@
        + "\r\nContent-Type: application/json\r\nContent-Length: "@ + spec_dec(
        body.len() as int) + "\r\n\r\n"@ + body@
}

/// Build one response.
pub fn http_response(status: u16, status_text: &str, body: &str) -> (r: String)
    ensures
        r@ == spec_http_response(status, status_text, body),
{
    let mut r = String::from_str("HTTP/1.1 ");
    let status_dec = u64_to_string(status as u64);
    r.append(status_dec.as_str());
    r.append(" ");
    r.append(status_text);
    r.append("\r\nContent-Type: application/json\r\nContent-Length: ");
    let len_dec = u64_to_string(body.len() as u64);
    r.append(len_dec.as_str());
    r.append("\r\n\r\n");
    r.append(body);
    proof {
        assert(r@ =~= spec_http_response(status, status_text, body));
    }
    r
}

/// The status body: pending count, configured batch size, batches closed.
pub open spec fn spec_status_body(pending: int, batch_size: int, batches: int) -> Seq<char> {
    "{\n  \"status\": \"running\",\n  \"pending_requests\": "@ + spec_dec(pending)
        + ",\n  \"batch_size\": "@ + spec_dec(batch_size) + ",\n  \"batches_completed\": "@
        + spec_dec(batches) + "\n}"@
}

/// Build the status body for the collector's current state.
pub fn handle_status(state: &AggregatorState) -> (r: String)
    ensures
        r@ == spec_status_body(state.pending_requests@.len() as int, state.batch_size as int,
            state.batch_counter as int),
{
    let mut r = String::from_str("{\n  \"status\": \"running\",\n  \"pending_requests\": ");
    let pending_dec = u64_to_string(state.pending_requests.len() as u64);
    r.append(pending_dec.as_str());
    r.append(",\n  \"batch_size\": ");
    let size_dec = u64_to_string(state.batch_size as u64);
    r.append(size_dec.as_str());
    r.append(",\n  \"batches_completed\": ");
    let batches_dec = u64_to_string(state.batch_counter);
    r.append(batches_dec.as_str());
    r.append("\n}");
    proof {
        assert(r@ =~= spec_status_body(state.pending_requests@.len() as int,
            state.batch_size as int, state.batch_counter as int));
    }
    r
}

/// The identifiers joined with commas, bracketed.
pub open spec fn spec_ids_join(ids: Seq<u64>) -> Seq<char>
    decreases ids.len(),
{
    if ids.len() == 0 {
        Seq::empty()
    } else if ids.len() == 1 {
        spec_dec(ids[0] as int)
    } else {
        spec_ids_join(ids.drop_last()) + ", "@ + spec_dec(ids.last() as int)
    }
}

/// The batch-composition body: pending count, batch size, and the pending
/// request identifiers.
pub open spec fn spec_batch_body(pending: int, batch_size: int, ids: Seq<u64>) -> Seq<char> {
    "{\n  \"pending_count\": "@ + spec_dec(pending) + ",\n  \"batch_size\": "@ + spec_dec(
        batch_size) + ",\n  \"request_ids\": ["@ + spec_ids_join(ids) + "]\n}"@
}

/// Build the batch-composition body for the collector's current state.
pub fn handle_batch_info(state: &AggregatorState) -> (r: String)
    ensures
        r@ == spec_batch_body(state.pending_requests@.len() as int, state.batch_size as int,
            Seq::new(state.pending_requests@.len(), |i: int| state.pending_requests@[
                i].request_id)),
{
    let ids = state.pending_ids();
    let mut r = String::from_str("{\n  \"pending_count\": ");
    let pending_dec = u64_to_string(state.pending_requests.len() as u64);
    r.append(pending_dec.as_str());
    r.append(",\n  \"batch_size\": ");
    let size_dec = u64_to_string(state.batch_size as u64);
    r.append(size_dec.as_str());
    r.append(",\n  \"request_ids\": [");
    let mut i: usize = 0;
    let ghost head = r@;
    while i < ids.len()
        invariant
            i <= ids@.len(),
            r@ == head + spec_ids_join(ids@.take(i as int)),
        decreases ids@.len() - i,
    {
        if i > 0 {
            r.append(", ");
        }
        let id_dec = u64_to_string(ids[i]);
        r.append(id_dec.as_str());
        proof {
            assert(ids@.take(i + 1).drop_last() =~= ids@.take(i as int));
            if i == 0 {
                assert(r@ =~= head + spec_ids_join(ids@.take(1)));
            } else {
                assert(r@ =~= head + spec_ids_join(ids@.take(i + 1)));
            }
        }
        i = i + 1;
    }
    r.append("]\n}");
    proof {
        assert(ids@.take(ids@.len() as int) =~= ids@);
        assert(ids@ =~= Seq::new(state.pending_requests@.len(), |i: int| state.pending_requests@[
            i].request_id));
        assert(r@ =~= spec_batch_body(state.pending_requests@.len() as int,
            state.batch_size as int, ids@));
    }
    r
}

} // verus!
