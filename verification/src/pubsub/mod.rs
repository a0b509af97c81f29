//! The logic of the [Pub/Sub](https://cloud.google.com/pubsub) message service client: resource
//! names, the retry predicate for Pub/Sub errors, publish batching and acknowledgement batching.

use vstd::prelude::*;

use crate::grpc::{Code, Status};
use crate::retry_policy::RetryPredicate;
use crate::text::{concat_strs, contains_str, seq_has_infix};

mod client_builder;
pub mod emulator;
mod message;
pub use client_builder::{default_pubsub_endpoint, PubSubConfig};
mod publish_sink;
mod streaming_subscription;
pub use streaming_subscription::{
    ack_batches, ack_request, create_initial_streaming_pull_request, flatten_batches, create_subsequent_streaming_pull_request,
    ids_with_deadline, modack_requests, nack_request, ack_requests, nack_requests, ack_request_ids,
    modack_request_ids, modacks_for, modack_handler_requests, told, token_results, validate_deadline, AckErr,
    AcknowledgeError, AcknowledgeRequest, ModifyAckDeadlineRequest, ModifyAcknowledgeError,
    StreamSubscriptionConfig, StreamingPullRequest, MAX_ACK_BATCH_SIZE, MAX_DEADLINE_SEC,
    all_present, delivers, end_of_stream_text, missing_message_text, DeliveredMessage,
    PullRetry, ReceivedMessage, subscription_error, subscription_key, ids_total, lemma_modacks_cover_batch, request_ids_total,
};
pub use publish_sink::{
    assign_message_ids, publish_failed, lemma_message_limits, attribute_violation, check_message, id_mismatch_text, limit_text,
    message_violation, oversize_text, threshold_spec, flush_step, FlushStep, FlushThreshold,
    PublishBuffer, PublishError, lemma_flush_keeps_order, lemma_pop_undoes_push,
    SinkError, MAX_ATTR_KEY_BYTES, MAX_ATTR_PER_MESSAGE, MAX_ATTR_VALUE_BYTES,
    MAX_DATA_FIELD_BYTES, MAX_MESSAGES_PER_PUBLISH, MAX_PUBLISH_REQUEST_BYTES, MB,
};
pub use message::{
    attribute_keys_distinct, attribute_keys_are_distinct, attributes_len, bytes_field_len, delimited_len, entry_len, lemma_request_len_pop,
    lemma_request_len_push, message_len, messages_len, publish_time_len, request_len,
    string_field_len, timestamp_len, varint_field_len, varint_len, PublishRequest,
    PubsubMessage, Timestamp,
};

verus! {

/// A project and subscription name combined in a format expected by API calls,
/// `projects/{project}/subscriptions/{subscription}`.
#[derive(Debug, Clone, PartialEq, Eq, PartialOrd, Ord, Hash)]
pub struct ProjectSubscriptionName(String);

impl View for ProjectSubscriptionName {
    type V = Seq<char>;

    closed spec fn view(&self) -> Seq<char> {
        self.0@
    }
}

impl ProjectSubscriptionName {
    /// Create a new `ProjectSubscriptionName` from the given project and subscription names
    pub fn new(project_name: &str, subscription_name: &str) -> (r: Self)
        ensures
            r@ == "projects/"@ + project_name@ + "/subscriptions/"@ + subscription_name@,
    {
        let pieces = ["projects/", project_name, "/subscriptions/", subscription_name];
        let s = concat_strs(&pieces);
        proof {
            reveal_with_fuel(Seq::fold_left, 5);
            let v = pieces@.map_values(|p: &str| p@);
            assert(v =~= seq!["projects/"@, project_name@, "/subscriptions/"@, subscription_name@]);
            assert(v.drop_last().drop_last().drop_last().drop_last() =~= Seq::<Seq<char>>::empty());
        }
        ProjectSubscriptionName(s)
    }

    /// The full name as a string slice.
    pub fn as_str(&self) -> (r: &str)
        ensures
            r@ == self@,
    {
        self.0.as_str()
    }

    /// The full name as a `String`, as displaying the name writes it.
    pub fn to_string(&self) -> (r: String)
        ensures
            r@ == self@,
    {
        self.0.clone()
    }
}

impl From<ProjectSubscriptionName> for String {
    fn from(name: ProjectSubscriptionName) -> (r: String)
        ensures
            r@ == name@,
    {
        name.0
    }
}

impl vstd::std_specs::convert::FromSpecImpl<ProjectSubscriptionName> for String {
    open spec fn obeys_from_spec() -> bool {
        true
    }

    closed spec fn from_spec(v: ProjectSubscriptionName) -> String {
        v.0
    }
}

/// A project and topic name combined in a format expected by API calls,
/// `projects/{project}/topics/{topic}`.
#[derive(Debug, Clone, PartialEq, Eq, PartialOrd, Ord, Hash)]
pub struct ProjectTopicName(String);

impl View for ProjectTopicName {
    type V = Seq<char>;

    closed spec fn view(&self) -> Seq<char> {
        self.0@
    }
}

impl ProjectTopicName {
    /// Create a new `ProjectTopicName` from the given project and topic names
    pub fn new(project_name: &str, topic_name: &str) -> (r: Self)
        ensures
            r@ == "projects/"@ + project_name@ + "/topics/"@ + topic_name@,
    {
        let pieces = ["projects/", project_name, "/topics/", topic_name];
        let s = concat_strs(&pieces);
        proof {
            reveal_with_fuel(Seq::fold_left, 5);
            let v = pieces@.map_values(|p: &str| p@);
            assert(v =~= seq!["projects/"@, project_name@, "/topics/"@, topic_name@]);
            assert(v.drop_last().drop_last().drop_last().drop_last() =~= Seq::<Seq<char>>::empty());
        }
        ProjectTopicName(s)
    }

    /// The full name as a string slice.
    pub fn as_str(&self) -> (r: &str)
        ensures
            r@ == self@,
    {
        self.0.as_str()
    }

    /// The full name as a `String`, as displaying the name writes it.
    pub fn to_string(&self) -> (r: String)
        ensures
            r@ == self@,
    {
        self.0.clone()
    }
}

impl From<ProjectTopicName> for String {
    fn from(name: ProjectTopicName) -> (r: String)
        ensures
            r@ == name@,
    {
        name.0
    }
}

impl vstd::std_specs::convert::FromSpecImpl<ProjectTopicName> for String {
    open spec fn obeys_from_spec() -> bool {
        true
    }

    closed spec fn from_spec(v: ProjectTopicName) -> String {
        v.0
    }
}

/// The message with which an `Unavailable` error reports a server shutting down; such errors
/// are not retried.
pub open spec fn shutdown_message() -> Seq<char> {
    "Server shutdownNow invoked"@
}

/// Whether a Pub/Sub error with the given code and message is worth retrying: the transient
/// codes always are, `Unavailable` is unless the server is shutting down, and no other code is.
pub open spec fn pubsub_retriable(code: Code, message: Seq<char>) -> bool {
    match code {
        Code::DeadlineExceeded | Code::Internal | Code::Cancelled | Code::ResourceExhausted
        | Code::Aborted | Code::Unknown => true,
        Code::Unavailable => !seq_has_infix(message, shutdown_message()),
        _ => false,
    }
}

/// Which Pub/Sub errors are retried: exactly those with code `DeadlineExceeded`, `Internal`,
/// `Cancelled`, `ResourceExhausted`, `Aborted` or `Unknown`, and those with code `Unavailable`
/// whose message does not report that the server is shutting down. Any other code
/// (`Unauthenticated`, `PermissionDenied`, `InvalidArgument`, `NotFound`, ...) is not retried,
/// whatever its message.
pub proof fn lemma_pubsub_retriable_codes(code: Code, message: Seq<char>)
    ensures
        pubsub_retriable(code, message) <==> (code == Code::DeadlineExceeded || code == Code::Internal
            || code == Code::Cancelled || code == Code::ResourceExhausted || code == Code::Aborted
            || code == Code::Unknown || (code == Code::Unavailable && !seq_has_infix(
            message,
            "Server shutdownNow invoked"@,
        ))),
        code == Code::Unauthenticated || code == Code::PermissionDenied || code == Code::InvalidArgument
            || code == Code::NotFound || code == Code::AlreadyExists || code == Code::FailedPrecondition
            || code == Code::OutOfRange || code == Code::Unimplemented || code == Code::DataLoss
            || code == Code::Okay ==> !pubsub_retriable(code, message),
{
}

/// The default [`RetryPredicate`] used for errors from PubSub operations
#[derive(Debug, Default, Clone, Copy)]
pub struct PubSubRetryCheck {
    _priv: (),
}

impl PubSubRetryCheck {
    /// Create a new instance with default settings
    pub fn new() -> (r: Self) {
        Self { _priv: () }
    }

    /// Determine whether the given error is retriable.
    pub fn check(&self, error: &Status) -> (r: bool)
        ensures
            r == pubsub_retriable(error.code_spec(), error.message_spec()),
    {
        match error.code() {
            Code::DeadlineExceeded | Code::Internal | Code::Cancelled | Code::ResourceExhausted
            | Code::Aborted | Code::Unknown => true,
            Code::Unavailable => {
                let is_shutdown = contains_str(error.message(), "Server shutdownNow invoked");
                !is_shutdown
            },
            _ => false,
        }
    }
}

impl RetryPredicate<Status> for PubSubRetryCheck {
    fn is_retriable(&self, error: &Status) -> (r: bool)
        ensures
            r == pubsub_retriable(error.code_spec(), error.message_spec()),
    {
        self.check(error)
    }
}

} // verus!
