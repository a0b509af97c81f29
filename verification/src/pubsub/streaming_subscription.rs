//! The decisions of a streaming subscription: the pull requests that open and keep alive the
//! stream, the validation of deadline modifications, and the batching of acknowledgements,
//! negative acknowledgements and deadline modifications into requests.
use vstd::prelude::*;

use super::message::PubsubMessage;
use crate::grpc::{Code, Status};
use crate::retry_policy::{RetryOperation, RetryPolicy};

verus! {

/// The maximum deadline supported by the RPC service
pub const MAX_DEADLINE_SEC: u32 = 600;

/// The maximum number of acks or modacks in a single request
pub const MAX_ACK_BATCH_SIZE: usize = 2500;

/// Configuration for a streaming subscription request
#[derive(Debug, Clone, Copy, PartialEq, Eq, Structural)]
pub struct StreamSubscriptionConfig {
    /// The acknowledgement deadline of the stream, in whole seconds.
    pub stream_ack_deadline_secs: u64,
    /// The most messages outstanding at once; zero for no limit.
    pub max_outstanding_messages: i64,
    /// The most bytes of messages outstanding at once; zero for no limit.
    pub max_outstanding_bytes: i64,
}

impl StreamSubscriptionConfig {
    /// The default configuration: a 10 second deadline, at most 1000 outstanding messages and
    /// no limit on outstanding bytes.
    pub fn new() -> (c: Self)
        ensures
            c.stream_ack_deadline_secs == 10,
            c.max_outstanding_messages == 1000,
            c.max_outstanding_bytes == 0,
    {
        StreamSubscriptionConfig {
            stream_ack_deadline_secs: 10,
            max_outstanding_messages: 1000,
            max_outstanding_bytes: 0,
        }
    }
}

/// A message of the request stream of a streaming pull.
#[derive(Debug, Clone, PartialEq, Eq, Default)]
pub struct StreamingPullRequest {
    /// The subscription to pull from; set on the first request only.
    pub subscription: String,
    /// Ids of messages to acknowledge.
    pub ack_ids: Vec<String>,
    /// Deadlines for the messages of `modify_deadline_ack_ids`.
    pub modify_deadline_seconds: Vec<i32>,
    /// Ids of messages whose deadline is modified.
    pub modify_deadline_ack_ids: Vec<String>,
    /// The acknowledgement deadline for the stream, in seconds.
    pub stream_ack_deadline_seconds: i32,
    /// An id of the client, which lets a reconnecting stream resume.
    pub client_id: String,
    /// Flow control: the most outstanding messages.
    pub max_outstanding_messages: i64,
    /// Flow control: the most outstanding bytes.
    pub max_outstanding_bytes: i64,
}

/// Create the initial StreamingPullRequest, which must include a subscription and a unique
/// client id. The deadline must fit in an `i32`.
pub fn create_initial_streaming_pull_request(
    subscription: String,
    client_id: String,
    config: &StreamSubscriptionConfig,
) -> (r: StreamingPullRequest)
    requires
        config.stream_ack_deadline_secs <= i32::MAX,
    ensures
        r.subscription@ == subscription@,
        r.client_id@ == client_id@,
        r.stream_ack_deadline_seconds == config.stream_ack_deadline_secs,
        r.max_outstanding_messages == config.max_outstanding_messages,
        r.max_outstanding_bytes == config.max_outstanding_bytes,
        r.ack_ids@.len() == 0,
        r.modify_deadline_seconds@.len() == 0,
        r.modify_deadline_ack_ids@.len() == 0,
{
    StreamingPullRequest {
        subscription,
        ack_ids: Vec::new(),
        modify_deadline_seconds: Vec::new(),
        modify_deadline_ack_ids: Vec::new(),
        stream_ack_deadline_seconds: config.stream_ack_deadline_secs as i32,
        client_id,
        max_outstanding_messages: config.max_outstanding_messages,
        max_outstanding_bytes: config.max_outstanding_bytes,
    }
}

/// Create the Nth StreamingPullRequest message (i.e. 2nd or later), which only re-states the
/// stream's deadline to keep the connection alive. The deadline must fit in an `i32`.
pub fn create_subsequent_streaming_pull_request(config: &StreamSubscriptionConfig) -> (r:
    StreamingPullRequest)
    requires
        config.stream_ack_deadline_secs <= i32::MAX,
    ensures
        r.stream_ack_deadline_seconds == config.stream_ack_deadline_secs,
        r.subscription@.len() == 0,
        r.client_id@.len() == 0,
        r.max_outstanding_messages == 0,
        r.max_outstanding_bytes == 0,
        r.ack_ids@.len() == 0,
        r.modify_deadline_seconds@.len() == 0,
        r.modify_deadline_ack_ids@.len() == 0,
{
    StreamingPullRequest {
        subscription: String::new(),
        ack_ids: Vec::new(),
        modify_deadline_seconds: Vec::new(),
        modify_deadline_ack_ids: Vec::new(),
        stream_ack_deadline_seconds: config.stream_ack_deadline_secs as i32,
        client_id: String::new(),
        max_outstanding_messages: 0,
        max_outstanding_bytes: 0,
    }
}

/// The cause of a failed acknowledgement.
#[derive(Debug, Clone)]
pub enum AckErr {
    /// The background task that sends acknowledgements stopped.
    BackgroundTaskPanic,
    /// The acknowledgement request failed.
    Request(Status),
}

impl AckErr {
    /// Whether two causes are alike: both a stopped task, or both failed requests with the
    /// same code.
    pub fn same_as(&self, other: &AckErr) -> (r: bool)
        ensures
            r == match (self, other) {
                (AckErr::BackgroundTaskPanic, AckErr::BackgroundTaskPanic) => true,
                (AckErr::Request(a), AckErr::Request(b)) => a.code_spec() == b.code_spec(),
                _ => false,
            },
    {
        match (self, other) {
            (AckErr::BackgroundTaskPanic, AckErr::BackgroundTaskPanic) => true,
            (AckErr::Request(a), AckErr::Request(b)) => a.code() == b.code(),
            _ => false,
        }
    }
}

/// An error encountered when issuing acks, nacks, or modifications
#[derive(Debug, Clone)]
pub struct AcknowledgeError(pub AckErr);

/// An error encountered when issuing deadline modifications
#[derive(Debug, Clone)]
pub enum ModifyAcknowledgeError {
    /// An error occurred in delivering the modification request
    Modify(AcknowledgeError),
    /// The requested deadline was not within the permitted range
    InvalidDeadline {
        /// The number of seconds requested for the deadline
        seconds: u32,
    },
}

/// Check a requested acknowledgement deadline: at most 600 seconds are permitted, and the
/// deadline is sent as an `i32`.
pub fn validate_deadline(seconds: u32) -> (r: Result<i32, ModifyAcknowledgeError>)
    ensures
        seconds <= MAX_DEADLINE_SEC ==> r == Ok::<i32, ModifyAcknowledgeError>(seconds as i32),
        seconds > MAX_DEADLINE_SEC ==> (r matches Err(ModifyAcknowledgeError::InvalidDeadline {
            seconds: s,
        }) && s == seconds),
{
    if seconds > MAX_DEADLINE_SEC {
        Err(ModifyAcknowledgeError::InvalidDeadline { seconds })
    } else {
        Ok(seconds as i32)
    }
}

/// A request to acknowledge messages.
#[derive(Debug, Clone, PartialEq, Eq, Default)]
pub struct AcknowledgeRequest {
    /// The subscription the messages were pulled from.
    pub subscription: String,
    /// The ids of the acknowledged messages.
    pub ack_ids: Vec<String>,
}

/// A request to modify the acknowledgement deadline of messages.
#[derive(Debug, Clone, PartialEq, Eq, Default)]
pub struct ModifyAckDeadlineRequest {
    /// The subscription the messages were pulled from.
    pub subscription: String,
    /// The ids of the messages.
    pub ack_ids: Vec<String>,
    /// The new deadline, in seconds from now; zero makes the messages available again.
    pub ack_deadline_seconds: i32,
}

/// The request acknowledging a batch of messages.
pub fn ack_request(subscription: &String, batch: Vec<String>) -> (r: AcknowledgeRequest)
    ensures
        r.subscription@ == subscription@,
        r.ack_ids@ == batch@,
{
    AcknowledgeRequest { subscription: subscription.clone(), ack_ids: batch }
}

/// The request negatively acknowledging a batch of messages: a deadline of zero seconds.
pub fn nack_request(subscription: &String, batch: Vec<String>) -> (r: ModifyAckDeadlineRequest)
    ensures
        r.subscription@ == subscription@,
        r.ack_ids@ == batch@,
        r.ack_deadline_seconds == 0,
{
    ModifyAckDeadlineRequest {
        subscription: subscription.clone(),
        ack_ids: batch,
        ack_deadline_seconds: 0,
    }
}

/// The ids of the entries of a batch with the given deadline, in batch order.
pub open spec fn ids_with_deadline(batch: Seq<(String, i32)>, deadline: i32) -> Seq<String>
    decreases batch.len(),
{
    if batch.len() == 0 {
        Seq::empty()
    } else if batch.last().1 == deadline {
        ids_with_deadline(batch.drop_last(), deadline).push(batch.last().0)
    } else {
        ids_with_deadline(batch.drop_last(), deadline)
    }
}

/// Whether some entry of the batch has a deadline beyond `floor` (every entry, when `floor`
/// is `None`).
pub open spec fn has_deadline_above(batch: Seq<(String, i32)>, floor: Option<i32>, d: i32) -> bool {
    (exists|k: int| 0 <= k < batch.len() && #[trigger] batch[k].1 == d) && match floor {
        Some(f) => d > f,
        None => true,
    }
}

/// The smallest deadline in the batch above `floor`, if any.
fn next_deadline(batch: &Vec<(String, i32)>, floor: Option<i32>) -> (r: Option<i32>)
    ensures
        match r {
            Some(d) => has_deadline_above(batch@, floor, d) && forall|e: i32|
                has_deadline_above(batch@, floor, e) ==> d <= e,
            None => forall|e: i32| !has_deadline_above(batch@, floor, e),
        },
{
    let mut best: Option<i32> = None;
    for k in 0..batch.len()
        invariant
            match best {
                Some(d) => has_deadline_above(batch@, floor, d) && forall|j: int|
                    0 <= j < k && has_deadline_above(batch@, floor, #[trigger] batch@[j].1)
                        ==> d <= batch@[j].1,
                None => forall|j: int|
                    0 <= j < k ==> !has_deadline_above(batch@, floor, #[trigger] batch@[j].1),
            },
    {
        let d = batch[k].1;
        let above = match floor {
            Some(f) => d > f,
            None => true,
        };
        proof {
            assert(batch@[k as int].1 == d);
        }
        if above {
            match best {
                Some(b) => {
                    if d < b {
                        best = Some(d);
                    }
                },
                None => {
                    best = Some(d);
                },
            }
        }
    }
    proof {
        assert forall|e: i32| has_deadline_above(batch@, floor, e) implies match best {
            Some(d) => d <= e,
            None => false,
        } by {
            let k = choose|k: int| 0 <= k < batch@.len() && #[trigger] batch@[k].1 == e;
            assert(batch@[k].1 == e);
        }
    }
    best
}

/// The ids of the entries with the given deadline, in batch order.
fn collect_ids(batch: &Vec<(String, i32)>, deadline: i32) -> (r: Vec<String>)
    ensures
        r@ == ids_with_deadline(batch@, deadline),
{
    let mut r: Vec<String> = Vec::new();
    for k in 0..batch.len()
        invariant
            r@ == ids_with_deadline(batch@.subrange(0, k as int), deadline),
    {
        proof {
            let next = batch@.subrange(0, k + 1);
            assert(next.drop_last() =~= batch@.subrange(0, k as int));
            assert(next.last() == batch@[k as int]);
        }
        if batch[k].1 == deadline {
            r.push(batch[k].0.clone());
        }
    }
    proof {
        assert(batch@.subrange(0, batch@.len() as int) =~= batch@);
    }
    r
}

/// The number of entries with a deadline beyond `floor`.
pub open spec fn count_above(batch: Seq<(String, i32)>, floor: Option<i32>) -> nat
    decreases batch.len(),
{
    if batch.len() == 0 {
        0
    } else {
        count_above(batch.drop_last(), floor) + (match floor {
            Some(f) => if batch.last().1 > f {
                1nat
            } else {
                0nat
            },
            None => 1nat,
        })
    }
}

proof fn lemma_count_above_decreases(batch: Seq<(String, i32)>, floor: Option<i32>, d: i32)
    requires
        has_deadline_above(batch, floor, d),
    ensures
        count_above(batch, Some(d)) < count_above(batch, floor),
    decreases batch.len(),
{
    let k = choose|k: int| 0 <= k < batch.len() && #[trigger] batch[k].1 == d;
    lemma_count_above_mono(batch.drop_last(), floor, d);
    if k < batch.len() - 1 {
        assert(batch.drop_last()[k] == batch[k]);
        lemma_count_above_decreases(batch.drop_last(), floor, d);
    }
}

proof fn lemma_count_above_mono(batch: Seq<(String, i32)>, floor: Option<i32>, d: i32)
    requires
        match floor {
            Some(f) => d > f,
            None => true,
        },
    ensures
        count_above(batch, Some(d)) <= count_above(batch, floor),
    decreases batch.len(),
{
    if batch.len() > 0 {
        lemma_count_above_mono(batch.drop_last(), floor, d);
    }
}

/// The number of ids the given deadlines select from a batch, counting each deadline's ids.
pub open spec fn ids_total(batch: Seq<(String, i32)>, deadlines: Seq<i32>) -> nat
    decreases deadlines.len(),
{
    if deadlines.len() == 0 {
        0
    } else {
        ids_total(batch, deadlines.drop_last()) + ids_with_deadline(batch, deadlines.last()).len()
    }
}

/// The number of ids held by a series of deadline modification requests.
pub open spec fn request_ids_total(requests: Seq<ModifyAckDeadlineRequest>) -> nat
    decreases requests.len(),
{
    if requests.len() == 0 {
        0
    } else {
        request_ids_total(requests.drop_last()) + requests.last().ack_ids@.len()
    }
}

proof fn lemma_ids_total_empty(deadlines: Seq<i32>)
    ensures
        ids_total(Seq::empty(), deadlines) == 0,
    decreases deadlines.len(),
{
    if deadlines.len() > 0 {
        lemma_ids_total_empty(deadlines.drop_last());
    }
}

proof fn lemma_ids_total_push(batch: Seq<(String, i32)>, e: (String, i32), deadlines: Seq<i32>)
    requires
        forall|i: int, j: int| 0 <= i < j < deadlines.len() ==> deadlines[i] != deadlines[j],
    ensures
        ids_total(batch.push(e), deadlines) == ids_total(batch, deadlines) + if deadlines.contains(
            e.1,
        ) {
            1nat
        } else {
            0nat
        },
    decreases deadlines.len(),
{
    if deadlines.len() > 0 {
        let rest = deadlines.drop_last();
        let d = deadlines.last();
        lemma_ids_total_push(batch, e, rest);
        assert(batch.push(e).drop_last() =~= batch);
        if rest.contains(e.1) {
            let i = choose|i: int| 0 <= i < rest.len() && rest[i] == e.1;
            assert(deadlines[i] != deadlines[deadlines.len() - 1]);
        }
        if e.1 == d {
            assert(deadlines[deadlines.len() - 1] == e.1);
        }
        assert(deadlines.contains(e.1) <==> (rest.contains(e.1) || d == e.1)) by {
            if deadlines.contains(e.1) {
                let i = choose|i: int| 0 <= i < deadlines.len() && deadlines[i] == e.1;
                if i < rest.len() {
                    assert(rest[i] == e.1);
                }
            }
            if rest.contains(e.1) {
                let i = choose|i: int| 0 <= i < rest.len() && rest[i] == e.1;
                assert(deadlines[i] == e.1);
            }
        }
    }
}

proof fn lemma_ids_total_all(batch: Seq<(String, i32)>, deadlines: Seq<i32>)
    requires
        forall|i: int, j: int| 0 <= i < j < deadlines.len() ==> deadlines[i] != deadlines[j],
        forall|k: int| 0 <= k < batch.len() ==> deadlines.contains(#[trigger] batch[k].1),
    ensures
        ids_total(batch, deadlines) == batch.len(),
    decreases batch.len(),
{
    if batch.len() == 0 {
        lemma_ids_total_empty(deadlines);
        assert(batch =~= Seq::<(String, i32)>::empty());
    } else {
        let rest = batch.drop_last();
        assert forall|k: int| 0 <= k < rest.len() implies deadlines.contains(#[trigger] rest[k].1) by {
            assert(rest[k] == batch[k]);
        }
        lemma_ids_total_all(rest, deadlines);
        lemma_ids_total_push(rest, batch.last(), deadlines);
        assert(rest.push(batch.last()) =~= batch);
        assert(deadlines.contains(batch[batch.len() - 1].1));
    }
}

proof fn lemma_request_ids_total(batch: Seq<(String, i32)>, requests: Seq<ModifyAckDeadlineRequest>)
    requires
        forall|i: int|
            0 <= i < requests.len() ==> (#[trigger] requests[i]).ack_ids@ == ids_with_deadline(
                batch,
                requests[i].ack_deadline_seconds,
            ),
    ensures
        request_ids_total(requests) == ids_total(
            batch,
            requests.map_values(|r: ModifyAckDeadlineRequest| r.ack_deadline_seconds),
        ),
    decreases requests.len(),
{
    let ds = requests.map_values(|r: ModifyAckDeadlineRequest| r.ack_deadline_seconds);
    if requests.len() > 0 {
        let rest = requests.drop_last();
        assert forall|i: int| 0 <= i < rest.len() implies (#[trigger] rest[i]).ack_ids@
            == ids_with_deadline(batch, rest[i].ack_deadline_seconds) by {
            assert(rest[i] == requests[i]);
        }
        lemma_request_ids_total(batch, rest);
        assert(ds.drop_last() =~= rest.map_values(|r: ModifyAckDeadlineRequest| r.ack_deadline_seconds));
        assert(requests[requests.len() - 1] == requests.last());
    } else {
        assert(ds =~= Seq::<i32>::empty());
    }
}

/// Splitting a batch of deadline modifications into requests loses and repeats nothing: the
/// requests that `modack_requests` forms for a batch (one per distinct deadline, each holding
/// the ids with its deadline) hold as many ids in all as the batch has entries.
pub proof fn lemma_modacks_cover_batch(
    subscription: Seq<char>,
    batch: Seq<(String, i32)>,
    requests: Seq<ModifyAckDeadlineRequest>,
)
    requires
        modacks_for(subscription, batch, requests),
    ensures
        request_ids_total(requests) == batch.len(),
{
    assert forall|i: int| 0 <= i < requests.len() implies (#[trigger] requests[i]).ack_ids@
        == ids_with_deadline(batch, requests[i].ack_deadline_seconds) by {
        assert(requests[i].subscription@ == subscription);
    }
    let ds = requests.map_values(|r: ModifyAckDeadlineRequest| r.ack_deadline_seconds);
    lemma_request_ids_total(batch, requests);
    assert forall|i: int, j: int| 0 <= i < j < ds.len() implies ds[i] != ds[j] by {
        assert(requests[i].ack_deadline_seconds < requests[j].ack_deadline_seconds);
    }
    assert forall|k: int| 0 <= k < batch.len() implies ds.contains(#[trigger] batch[k].1) by {
        let i = choose|i: int|
            0 <= i < requests.len() && requests[i].ack_deadline_seconds == #[trigger] batch[k].1;
        assert(ds[i] == batch[k].1);
    }
    lemma_ids_total_all(batch, ds);
}

/// The concatenation of a series of batches.
pub open spec fn flatten_batches<T>(batches: Seq<Vec<T>>) -> Seq<T>
    decreases batches.len(),
{
    if batches.len() == 0 {
        Seq::empty()
    } else {
        flatten_batches(batches.drop_last()) + batches.last()@
    }
}

/// Split items into batches of at most `MAX_ACK_BATCH_SIZE`, in order: every batch but the
/// last is full, and none is empty.
pub fn ack_batches<T>(items: Vec<T>) -> (r: Vec<Vec<T>>)
    ensures
        flatten_batches(r@) == items@,
        forall|i: int| 0 <= i < r@.len() ==> 0 < (#[trigger] r@[i])@.len() <= MAX_ACK_BATCH_SIZE,
        forall|i: int| 0 <= i < r@.len() - 1 ==> (#[trigger] r@[i])@.len() == MAX_ACK_BATCH_SIZE,
{
    let mut r: Vec<Vec<T>> = Vec::new();
    let mut current: Vec<T> = Vec::new();
    let mut rest = items;
    let ghost all = rest@;
    let mut backwards: Vec<T> = Vec::new();
    while rest.len() > 0
        invariant
            rest@.len() + backwards@.len() == all.len(),
            rest@ == all.subrange(0, rest@.len() as int),
            forall|q: int|
                0 <= q < backwards@.len() ==> #[trigger] backwards@[q] == all[all.len() - 1 - q],
        decreases rest.len(),
    {
        let x = rest.pop().unwrap();
        backwards.push(x);
    }
    while backwards.len() > 0
        invariant
            backwards@.len() <= all.len(),
            forall|q: int|
                0 <= q < backwards@.len() ==> #[trigger] backwards@[q] == all[all.len() - 1 - q],
            flatten_batches(r@) + current@ == all.subrange(0, all.len() - backwards@.len()),
            current@.len() < MAX_ACK_BATCH_SIZE,
            forall|i: int| 0 <= i < r@.len() ==> (#[trigger] r@[i])@.len() == MAX_ACK_BATCH_SIZE,
        decreases backwards.len(),
    {
        let ghost p = all.len() - backwards@.len();
        let ghost before = flatten_batches(r@) + current@;
        let x = backwards.pop().unwrap();
        proof {
            assert(x == all[p]);
            assert(all.subrange(0, p + 1) =~= all.subrange(0, p).push(x));
        }
        current.push(x);
        proof {
            assert(flatten_batches(r@) + current@ =~= before.push(x));
        }
        if current.len() == MAX_ACK_BATCH_SIZE {
            let ghost rb = r@;
            let mut full: Vec<T> = Vec::new();
            std::mem::swap(&mut full, &mut current);
            r.push(full);
            proof {
                assert(r@.drop_last() =~= rb);
                assert(flatten_batches(r@) == flatten_batches(rb) + full@);
                assert(flatten_batches(r@) + current@ =~= flatten_batches(r@));
            }
        }
    }
    if current.len() > 0 {
        let ghost rb = r@;
        r.push(current);
        proof {
            assert(r@.drop_last() =~= rb);
        }
    } else {
        proof {
            assert(flatten_batches(r@) + current@ =~= flatten_batches(r@));
        }
    }
    proof {
        assert(all.subrange(0, all.len() as int) =~= all);
    }
    r
}

/// The ids that a series of acknowledgement requests carries, request after request.
pub open spec fn ack_request_ids(rs: Seq<AcknowledgeRequest>) -> Seq<String>
    decreases rs.len(),
{
    if rs.len() == 0 {
        Seq::empty()
    } else {
        ack_request_ids(rs.drop_last()) + rs.last().ack_ids@
    }
}

/// The ids that a series of deadline modification requests carries, request after request.
pub open spec fn modack_request_ids(rs: Seq<ModifyAckDeadlineRequest>) -> Seq<String>
    decreases rs.len(),
{
    if rs.len() == 0 {
        Seq::empty()
    } else {
        modack_request_ids(rs.drop_last()) + rs.last().ack_ids@
    }
}

/// The requests that acknowledge the ids queued for a subscription, in order: the ids go in
/// batches of at most `MAX_ACK_BATCH_SIZE`, every batch but the last full, one request each.
pub fn ack_requests(subscription: &String, ids: Vec<String>) -> (r: Vec<AcknowledgeRequest>)
    ensures
        ack_request_ids(r@) == ids@,
        forall|i: int|
            0 <= i < r@.len() ==> (#[trigger] r@[i]).subscription@ == subscription@ && 0
                < r@[i].ack_ids@.len() <= MAX_ACK_BATCH_SIZE,
        forall|i: int| 0 <= i < r@.len() - 1 ==> (#[trigger] r@[i]).ack_ids@.len() == MAX_ACK_BATCH_SIZE,
{
    let mut batches = ack_batches(ids);
    let ghost all = batches@;
    let mut backwards: Vec<Vec<String>> = Vec::new();
    while batches.len() > 0
        invariant
            batches@.len() + backwards@.len() == all.len(),
            batches@ == all.subrange(0, batches@.len() as int),
            forall|q: int|
                0 <= q < backwards@.len() ==> #[trigger] backwards@[q] == all[all.len() - 1 - q],
        decreases batches.len(),
    {
        let b = batches.pop().unwrap();
        backwards.push(b);
    }
    let mut r: Vec<AcknowledgeRequest> = Vec::new();
    proof {
        assert(all.subrange(0, 0) =~= Seq::<Vec<String>>::empty());
    }
    while backwards.len() > 0
        invariant
            r@.len() + backwards@.len() == all.len(),
            forall|q: int|
                0 <= q < backwards@.len() ==> #[trigger] backwards@[q] == all[all.len() - 1 - q],
            ack_request_ids(r@) == flatten_batches(all.subrange(0, r@.len() as int)),
            forall|i: int| 0 <= i < r@.len() ==> (#[trigger] r@[i]).subscription@ == subscription@ && r@[i].ack_ids@ == all[i]@,
        decreases backwards.len(),
    {
        let ghost k = r@.len() as int;
        let ghost rb = r@;
        let b = backwards.pop().unwrap();
        proof {
            assert(b == all[k]);
            assert(all.subrange(0, k + 1).drop_last() =~= all.subrange(0, k));
        }
        let q = ack_request(subscription, b);
        r.push(q);
        proof {
            assert(r@.drop_last() =~= rb);
        }
    }
    proof {
        assert(all.subrange(0, all.len() as int) =~= all);
    }
    r
}

/// The requests that negatively acknowledge the ids queued for a subscription, in order: a
/// deadline of zero seconds, with the ids in batches of at most `MAX_ACK_BATCH_SIZE`, every
/// batch but the last full, one request each.
pub fn nack_requests(subscription: &String, ids: Vec<String>) -> (r: Vec<ModifyAckDeadlineRequest>)
    ensures
        modack_request_ids(r@) == ids@,
        forall|i: int|
            0 <= i < r@.len() ==> (#[trigger] r@[i]).subscription@ == subscription@ && r@[i].ack_deadline_seconds
                == 0 && 0 < r@[i].ack_ids@.len() <= MAX_ACK_BATCH_SIZE,
        forall|i: int| 0 <= i < r@.len() - 1 ==> (#[trigger] r@[i]).ack_ids@.len() == MAX_ACK_BATCH_SIZE,
{
    let mut batches = ack_batches(ids);
    let ghost all = batches@;
    let mut backwards: Vec<Vec<String>> = Vec::new();
    while batches.len() > 0
        invariant
            batches@.len() + backwards@.len() == all.len(),
            batches@ == all.subrange(0, batches@.len() as int),
            forall|q: int|
                0 <= q < backwards@.len() ==> #[trigger] backwards@[q] == all[all.len() - 1 - q],
        decreases batches.len(),
    {
        let b = batches.pop().unwrap();
        backwards.push(b);
    }
    let mut r: Vec<ModifyAckDeadlineRequest> = Vec::new();
    proof {
        assert(all.subrange(0, 0) =~= Seq::<Vec<String>>::empty());
    }
    while backwards.len() > 0
        invariant
            r@.len() + backwards@.len() == all.len(),
            forall|q: int|
                0 <= q < backwards@.len() ==> #[trigger] backwards@[q] == all[all.len() - 1 - q],
            modack_request_ids(r@) == flatten_batches(all.subrange(0, r@.len() as int)),
            forall|i: int| 0 <= i < r@.len() ==> (#[trigger] r@[i]).subscription@ == subscription@ && r@[i].ack_ids@ == all[i]@
                && r@[i].ack_deadline_seconds == 0,
        decreases backwards.len(),
    {
        let ghost k = r@.len() as int;
        let ghost rb = r@;
        let b = backwards.pop().unwrap();
        proof {
            assert(b == all[k]);
            assert(all.subrange(0, k + 1).drop_last() =~= all.subrange(0, k));
        }
        let q = nack_request(subscription, b);
        r.push(q);
        proof {
            assert(r@.drop_last() =~= rb);
        }
    }
    proof {
        assert(all.subrange(0, all.len() as int) =~= all);
    }
    r
}

/// Whether an acknowledgement token is told the outcome of its request: success for a
/// successful request, and otherwise a request error with the request's status.
pub open spec fn told(t: Result<(), AcknowledgeError>, outcome: Result<(), Status>) -> bool {
    match (t, outcome) {
        (Ok(()), Ok(())) => true,
        (Err(AcknowledgeError(AckErr::Request(s))), Err(e)) => {
            &&& s.code_spec() == e.code_spec()
            &&& s.message_spec() == e.message_spec()
            &&& s.metadata_spec() == e.metadata_spec()
        },
        _ => false,
    }
}

/// What each token of the sent requests is told: for the `j`-th request, carrying `sizes[j]`
/// ids, one result per id, each the outcome of that request.
pub fn token_results(sizes: &Vec<usize>, outcomes: &Vec<Result<(), Status>>) -> (r: Vec<
    Vec<Result<(), AcknowledgeError>>,
>)
    requires
        sizes@.len() == outcomes@.len(),
    ensures
        r@.len() == sizes@.len(),
        forall|j: int|
            0 <= j < r@.len() ==> (#[trigger] r@[j])@.len() == sizes@[j] && forall|t: int|
                0 <= t < r@[j]@.len() ==> told(#[trigger] r@[j]@[t], outcomes@[j]),
{
    let mut r: Vec<Vec<Result<(), AcknowledgeError>>> = Vec::new();
    let mut j: usize = 0;
    while j < sizes.len()
        invariant
            j <= sizes@.len(),
            sizes@.len() == outcomes@.len(),
            r@.len() == j,
            forall|q: int|
                0 <= q < j ==> (#[trigger] r@[q])@.len() == sizes@[q] && forall|t: int|
                    0 <= t < r@[q]@.len() ==> told(#[trigger] r@[q]@[t], outcomes@[q]),
        decreases sizes@.len() - j,
    {
        let mut told_here: Vec<Result<(), AcknowledgeError>> = Vec::new();
        let mut t: usize = 0;
        while t < sizes[j]
            invariant
                j < sizes@.len(),
                sizes@.len() == outcomes@.len(),
                t <= sizes@[j as int],
                told_here@.len() == t,
                forall|u: int| 0 <= u < t ==> told(#[trigger] told_here@[u], outcomes@[j as int]),
            decreases sizes@[j as int] - t,
        {
            let one = match &outcomes[j] {
                Ok(()) => Ok(()),
                Err(e) => Err(AcknowledgeError(AckErr::Request(e.duplicate()))),
            };
            told_here.push(one);
            t = t + 1;
        }
        let ghost rb = r@;
        r.push(told_here);
        proof {
            assert forall|q: int| 0 <= q < j + 1 implies (#[trigger] r@[q])@.len() == sizes@[q]
                && forall|t: int| 0 <= t < r@[q]@.len() ==> told(#[trigger] r@[q]@[t], outcomes@[q]) by {
                if q < j {
                    assert(r@[q] == rb[q]);
                }
            }
        }
        j = j + 1;
    }
    r
}

/// Whether `r` are the deadline modification requests for a batch: one request per distinct
/// deadline of the batch, in increasing order of deadline, each holding the ids with that
/// deadline in batch order.
pub open spec fn modacks_for(subscription: Seq<char>, batch: Seq<(String, i32)>, r: Seq<ModifyAckDeadlineRequest>) -> bool {
    &&& forall|i: int, j: int|
        0 <= i < j < r.len() ==> r[i].ack_deadline_seconds < r[j].ack_deadline_seconds
    &&& forall|i: int|
        0 <= i < r.len() ==> {
            &&& #[trigger] r[i].subscription@ == subscription
            &&& r[i].ack_ids@ == ids_with_deadline(batch, r[i].ack_deadline_seconds)
            &&& exists|k: int| 0 <= k < batch.len() && batch[k].1 == r[i].ack_deadline_seconds
        }
    &&& forall|k: int|
        #![trigger batch[k]]
        0 <= k < batch.len() ==> exists|i: int|
            0 <= i < r.len() && r[i].ack_deadline_seconds == batch[k].1
}

/// The deadline modification requests for the entries queued for a subscription: the entries
/// are taken in batches of at most `MAX_ACK_BATCH_SIZE`, in order and every batch but the last
/// full, and each batch gives the requests that `modack_requests` forms for it.
pub fn modack_handler_requests(subscription: &String, queued: Vec<(String, i32)>) -> (r: Vec<
    Vec<ModifyAckDeadlineRequest>,
>)
    ensures
        exists|chunks: Seq<Vec<(String, i32)>>|
            {
                &&& flatten_batches(chunks) == queued@
                &&& chunks.len() == r@.len()
                &&& forall|i: int|
                    0 <= i < chunks.len() ==> 0 < (#[trigger] chunks[i])@.len() <= MAX_ACK_BATCH_SIZE
                &&& forall|i: int|
                    0 <= i < chunks.len() - 1 ==> (#[trigger] chunks[i])@.len() == MAX_ACK_BATCH_SIZE
                &&& forall|i: int|
                    0 <= i < r@.len() ==> modacks_for(subscription@, chunks[i]@, (#[trigger] r@[i])@)
            },
{
    let mut batches = ack_batches(queued);
    let ghost all = batches@;
    let mut backwards: Vec<Vec<(String, i32)>> = Vec::new();
    while batches.len() > 0
        invariant
            batches@.len() + backwards@.len() == all.len(),
            batches@ == all.subrange(0, batches@.len() as int),
            forall|q: int|
                0 <= q < backwards@.len() ==> #[trigger] backwards@[q] == all[all.len() - 1 - q],
        decreases batches.len(),
    {
        let b = batches.pop().unwrap();
        backwards.push(b);
    }
    let mut r: Vec<Vec<ModifyAckDeadlineRequest>> = Vec::new();
    while backwards.len() > 0
        invariant
            r@.len() + backwards@.len() == all.len(),
            forall|q: int|
                0 <= q < backwards@.len() ==> #[trigger] backwards@[q] == all[all.len() - 1 - q],
            forall|i: int| 0 <= i < r@.len() ==> modacks_for(subscription@, all[i]@, (#[trigger] r@[i])@),
        decreases backwards.len(),
    {
        let ghost k = r@.len() as int;
        let b = backwards.pop().unwrap();
        proof {
            assert(b == all[k]);
        }
        let ghost rb = r@;
        let q = modack_requests(subscription, b);
        proof {
            assert(modacks_for(subscription@, all[k]@, q@));
        }
        r.push(q);
        proof {
            assert forall|i: int| 0 <= i < r@.len() implies modacks_for(subscription@, all[i]@, (#[trigger] r@[i])@) by {
                if i < k {
                    assert(r@[i] == rb[i]);
                } else {
                    assert(r@[i] == q);
                }
            }
        }
    }
    proof {
        assert(flatten_batches(all) == queued@);
    }
    r
}

/// Split a batch of deadline modifications into requests: one request per distinct deadline,
/// sent in increasing order of deadline, each holding the ids with that deadline in the order
/// in which they were submitted.
pub fn modack_requests(subscription: &String, batch: Vec<(String, i32)>) -> (r: Vec<
    ModifyAckDeadlineRequest,
>)
    ensures
        modacks_for(subscription@, batch@, r@),
{
    let mut r: Vec<ModifyAckDeadlineRequest> = Vec::new();
    let mut floor: Option<i32> = None;
    loop
        invariant
            forall|i: int, j: int|
                0 <= i < j < r@.len() ==> r@[i].ack_deadline_seconds
                    < r@[j].ack_deadline_seconds,
            forall|i: int|
                0 <= i < r@.len() ==> {
                    &&& #[trigger] r@[i].subscription@ == subscription@
                    &&& r@[i].ack_ids@ == ids_with_deadline(batch@, r@[i].ack_deadline_seconds)
                    &&& exists|k: int|
                        0 <= k < batch@.len() && batch@[k].1 == r@[i].ack_deadline_seconds
                },
            match floor {
                None => r@.len() == 0,
                Some(f) => r@.len() > 0 && r@.last().ack_deadline_seconds == f,
            },
            forall|k: int|
                0 <= k < batch@.len() && !has_deadline_above(batch@, floor, batch@[k].1)
                    ==> exists|i: int|
                    0 <= i < r@.len() && r@[i].ack_deadline_seconds == #[trigger] batch@[k].1,
        decreases count_above(batch@, floor),
    {
        match next_deadline(&batch, floor) {
            None => {
                return r;
            },
            Some(d) => {
                let ids = collect_ids(&batch, d);
                let ghost before = r@;
                proof {
                    lemma_count_above_decreases(batch@, floor, d);
                }
                r.push(
                    ModifyAckDeadlineRequest {
                        subscription: subscription.clone(),
                        ack_ids: ids,
                        ack_deadline_seconds: d,
                    },
                );
                proof {
                    assert forall|k: int|
                        0 <= k < batch@.len() && !has_deadline_above(
                            batch@,
                            Some(d),
                            batch@[k].1,
                        ) implies exists|i: int|
                        0 <= i < r@.len() && r@[i].ack_deadline_seconds
                            == #[trigger] batch@[k].1 by {
                        if batch@[k].1 == d {
                            assert(r@[r@.len() - 1].ack_deadline_seconds == d);
                        } else {
                            assert(!has_deadline_above(batch@, floor, batch@[k].1));
                            let i = choose|i: int|
                                0 <= i < before.len() && before[i].ack_deadline_seconds
                                    == #[trigger] batch@[k].1;
                            assert(r@[i] == before[i]);
                        }
                    }
                }
                floor = Some(d);
            },
        }
    }
}

/// A message as it arrives in a response of the subscription stream.
#[derive(Debug, Clone)]
pub struct ReceivedMessage {
    /// The id used to acknowledge the message.
    pub ack_id: String,
    /// The message; the service always fills it in.
    pub message: Option<PubsubMessage>,
    /// How many times the message has been delivered, when the subscription counts them.
    pub delivery_attempt: i32,
}

/// A message handed to the subscriber, with what its acknowledgement token needs.
#[derive(Debug, Clone)]
pub struct DeliveredMessage {
    /// The id used to acknowledge the message.
    pub ack_id: String,
    /// How many times the message has been delivered.
    pub delivery_attempt: i32,
    /// The message.
    pub message: PubsubMessage,
}

/// The text of the error raised when a received message has no content.
pub open spec fn missing_message_text() -> Seq<char> {
    "message should be populated by RPC server"@
}

/// The text of the error raised when the stream ends without an error.
pub open spec fn end_of_stream_text() -> Seq<char> {
    "unexpected end of stream"@
}

/// The metadata key under which an error given to the subscriber names the subscription.
pub open spec fn subscription_key() -> Seq<char> {
    "subscription"@
}

/// The error handed to the subscriber when the stream gives up: the error on which the retry
/// operation gave up, with the subscription's name set under the metadata key `subscription`.
pub fn subscription_error(error: Status, subscription: String) -> (e: Status)
    ensures
        e.code_spec() == error.code_spec(),
        e.message_spec() == error.message_spec(),
        e.metadata_value(subscription_key()) == Some(subscription@),
        forall|k: Seq<char>|
            k != subscription_key() ==> #[trigger] e.metadata_value(k) == error.metadata_value(k),
{
    let mut e = error;
    let key = "subscription".to_string();
    proof {
        reveal_strlit("subscription");
    }
    e.insert_metadata(key, subscription);
    e
}

/// Whether the first `k` received messages all have content.
pub open spec fn all_present(received: Seq<ReceivedMessage>, k: int) -> bool {
    forall|i: int| 0 <= i < k ==> (#[trigger] received[i]).message is Some
}

/// Whether a delivered message carries what was received.
pub open spec fn delivers(d: DeliveredMessage, m: ReceivedMessage) -> bool {
    &&& m.message == Some(d.message)
    &&& d.ack_id == m.ack_id
    &&& d.delivery_attempt == m.delivery_attempt
}

/// The reconnection state of a streaming pull: the retry policy, and the retry operation of
/// the failures since the last successful response, if any.
pub struct PullRetry<R: RetryPolicy<(), Status>> {
    policy: R,
    op: Option<R::RetryOp>,
    series: Ghost<nat>,
    failures: Ghost<nat>,
}

impl<R: RetryPolicy<(), Status>> PullRetry<R> {
    /// Whether failures have occurred since the last successful response.
    pub closed spec fn retrying(&self) -> bool {
        self.op is Some
    }

    /// The number of retry operations made from the policy so far: one per series of
    /// failures.
    pub closed spec fn series(&self) -> nat {
        self.series@
    }

    /// The number of failures handed to the retry operation of the current series (zero when
    /// no series is under way).
    pub closed spec fn failures(&self) -> nat {
        self.failures@
    }

    /// The retry policy.
    pub closed spec fn policy(&self) -> R {
        self.policy
    }

    /// The retry operation of the current series, if one is under way.
    pub closed spec fn operation(&self) -> Option<R::RetryOp> {
        self.op
    }

    /// The state is consistent: a series is under way exactly when failures have been handed
    /// to its operation.
    pub closed spec fn wf(&self) -> bool {
        (self.op is Some) == (self.failures@ > 0)
    }

    /// Start pulling with the given retry policy; no failure has occurred yet.
    pub fn new(policy: R) -> (r: Self)
        ensures
            !r.retrying(),
            r.wf(),
            r.series() == 0,
            r.failures() == 0,
            r.policy() == policy,
    {
        PullRetry { policy, op: None, series: Ghost(0), failures: Ghost(0) }
    }

    /// Take a successful response: it ends any series of failures. Its messages are delivered
    /// in order up to the first one without content, which fails the stream with an
    /// `Internal` error.
    pub fn receive(&mut self, received: Vec<ReceivedMessage>) -> (r: (Vec<DeliveredMessage>, Option<Status>))
        ensures
            !final(self).retrying(),
            final(self).wf(),
            final(self).failures() == 0,
            final(self).series() == old(self).series(),
            final(self).policy() == old(self).policy(),
            r.0@.len() <= received@.len(),
            all_present(received@, r.0@.len() as int),
            forall|i: int| 0 <= i < r.0@.len() ==> delivers(#[trigger] r.0@[i], received@[i]),
            r.1 is None <==> r.0@.len() == received@.len(),
            r.1 matches Some(e) ==> received@[r.0@.len() as int].message is None && e.code_spec()
                == Code::Internal && e.message_spec() == missing_message_text(),
    {
        self.op = None;
        self.failures = Ghost(0);
        let mut delivered: Vec<DeliveredMessage> = Vec::new();
        let mut rest = received;
        let ghost all = rest@;
        let mut backwards: Vec<ReceivedMessage> = Vec::new();
        while rest.len() > 0
            invariant
                all == received@,
                self.op is None,
                self.failures@ == 0,
                self.series@ == old(self).series@,
                self.policy == old(self).policy,
                rest@.len() + backwards@.len() == all.len(),
                rest@ == all.subrange(0, rest@.len() as int),
                forall|q: int| 0 <= q < backwards@.len() ==> #[trigger] backwards@[q] == all[all.len() - 1 - q],
            decreases rest.len(),
        {
            let m = rest.pop().unwrap();
            backwards.push(m);
        }
        while backwards.len() > 0
            invariant
                all == received@,
                self.op is None,
                self.failures@ == 0,
                self.series@ == old(self).series@,
                self.policy == old(self).policy,
                delivered@.len() + backwards@.len() == all.len(),
                forall|q: int| 0 <= q < backwards@.len() ==> #[trigger] backwards@[q] == all[all.len() - 1 - q],
                all_present(all, delivered@.len() as int),
                forall|i: int| 0 <= i < delivered@.len() ==> delivers(#[trigger] delivered@[i], all[i]),
            decreases backwards.len(),
        {
            let ghost k = delivered@.len() as int;
            let m = backwards.pop().unwrap();
            assert(m == all[k]);
            match m.message {
                Some(message) => {
                    delivered.push(DeliveredMessage {
                        ack_id: m.ack_id,
                        delivery_attempt: m.delivery_attempt,
                        message,
                    });
                    proof {
                        assert forall|i: int| 0 <= i < k + 1 implies (#[trigger] all[i]).message is Some by {
                            if i < k {
                                assert(all_present(all, k));
                            }
                        }
                    }
                },
                None => {
                    let e = Status::internal("message should be populated by RPC server".to_string());
                    return (delivered, Some(e));
                },
            }
        }
        (delivered, None)
    }

    /// The error standing for a stream that ended without one: the service always ends the
    /// stream with an error, so some other part of the stack closed the connection.
    pub fn end_of_stream_error() -> (e: Status)
        ensures
            e.code_spec() == Code::Aborted,
            e.message_spec() == end_of_stream_text(),
    {
        Status::aborted("unexpected end of stream".to_string())
    }

    /// Take a failure of the stream: the retry operation of the current series of failures
    /// decides whether to reconnect, after how many milliseconds, or to give the error up.
    /// A new operation is made from the policy only for the first failure of a series; later
    /// failures of the series go to the same operation, so that its backoff grows and its limit
    /// is reached. The series goes on until a successful response.
    pub fn fail(&mut self, error: &Status) -> (r: Option<u64>)
        requires
            old(self).wf(),
        ensures
            final(self).retrying(),
            final(self).wf(),
            final(self).series() == old(self).series() + if old(self).retrying() {
                0nat
            } else {
                1nat
            },
            final(self).failures() == old(self).failures() + 1,
            old(self).retrying() ==> {
                &&& final(self).policy() == old(self).policy()
                &&& old(self).operation()->0.decides(&(), error, r, &final(self).operation()->0)
            },
            !old(self).retrying() ==> exists|op: R::RetryOp|
                #[trigger] old(self).policy().makes_operation(op, &final(self).policy()) && op.decides(
                    &(),
                    error,
                    r,
                    &final(self).operation()->0,
                ),
    {
        let mut op = match self.op.take() {
            Some(op) => op,
            None => {
                self.series = Ghost(self.series@ + 1);
                self.policy.new_operation()
            },
        };
        let ghost first = op;
        let r = op.check_retry(&(), error);
        self.op = Some(op);
        self.failures = Ghost(self.failures@ + 1);
        proof {
            if !old(self).retrying() {
                assert(old(self).policy().makes_operation(first, &self.policy()));
                assert(first.decides(&(), error, r, &self.operation()->0));
            }
        }
        r
    }
}

} // verus!
