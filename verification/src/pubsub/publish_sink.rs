//! The buffer of a publishing sink: messages are checked against the Pub/Sub resource limits
//! as they are submitted, and batched into publish requests that stay within those limits.
use vstd::prelude::*;

use super::message::{
    attribute_keys_distinct,
    delimited_len, lemma_request_len_pop, lemma_request_len_push, message_len, request_len,
    string_field_len, PublishRequest, PubsubMessage,
};
use crate::grpc::{Code, Status};
use crate::retry_policy::RetryOperation;
use crate::text::{concat_strs, decimal, decimal_spec, sat, utf8_byte_len, utf8_len};

verus! {

/// One million bytes.
pub const MB: usize = 1000000;

/// The most attributes a message may carry.
pub const MAX_ATTR_PER_MESSAGE: usize = 100;

/// The most bytes an attribute key may hold.
pub const MAX_ATTR_KEY_BYTES: usize = 256;

/// The most bytes an attribute value may hold.
pub const MAX_ATTR_VALUE_BYTES: usize = 1024;

/// The most messages a single publish request may carry.
pub const MAX_MESSAGES_PER_PUBLISH: usize = 1000;

/// The most bytes the data field of a message may hold.
pub const MAX_DATA_FIELD_BYTES: usize = 10 * MB;

/// The most bytes an encoded publish request may hold.
pub const MAX_PUBLISH_REQUEST_BYTES: usize = 10 * MB;

/// An error that may occur when publishing batches of messages to PubSub
#[derive(Debug)]
pub struct PublishError {
    /// The source of the error
    pub source: Status,
    /// The messages which failed to be published
    pub messages: Vec<PubsubMessage>,
}

impl From<PublishError> for Status {
    fn from(err: PublishError) -> (s: Status)
        ensures
            s == err.source,
    {
        err.source
    }
}

impl vstd::std_specs::convert::FromSpecImpl<PublishError> for Status {
    open spec fn obeys_from_spec() -> bool {
        true
    }

    open spec fn from_spec(v: PublishError) -> Status {
        v.source
    }
}

/// Take a failed publish of a request: the retry operation decides whether to publish the
/// request again, and after how many milliseconds. When it gives up, the error carries the
/// failure and the messages of the request, which were not published.
pub fn publish_failed<O: RetryOperation<PublishRequest, Status>>(
    op: &mut O,
    request: PublishRequest,
    error: Status,
) -> (r: Result<(u64, PublishRequest), PublishError>)
    ensures
        match r {
            Ok((ms, again)) => old(op).decides(&request, &error, Some(ms), &*final(op)) && again
                == request,
            Err(e) => old(op).decides(&request, &error, None, &*final(op)) && e.source == error
                && e.messages@ == request.messages@,
        },
{
    match op.check_retry(&request, &error) {
        Some(ms) => Ok((ms, request)),
        None => Err(PublishError { source: error, messages: request.messages }),
    }
}

/// An error that may occur when submitting messages to the publishing sink
#[derive(Debug)]
pub enum SinkError<E> {
    /// An error from publishing messages to PubSub
    Publish(PublishError),
    /// An error from reporting successful publish responses to the user-provided sink
    Response(E),
}

impl<E> From<PublishError> for SinkError<E> {
    fn from(err: PublishError) -> (r: Self)
        ensures
            r == SinkError::<E>::Publish(err),
    {
        SinkError::Publish(err)
    }
}

impl<E> vstd::std_specs::convert::FromSpecImpl<PublishError> for SinkError<E> {
    open spec fn obeys_from_spec() -> bool {
        true
    }

    open spec fn from_spec(v: PublishError) -> SinkError<E> {
        SinkError::Publish(v)
    }
}

/// Where a buffered request stands relative to the publishing limits.
#[derive(Debug, Clone, Copy, PartialEq, Eq, Structural)]
pub enum FlushThreshold {
    /// Below both limits: another message may be buffered.
    Less,
    /// Exactly at one of the limits and beyond neither.
    Equal,
    /// Beyond one of the limits.
    Greater,
}

/// The flush threshold of a request with `count` messages and `bytes` encoded bytes.
pub open spec fn threshold_spec(count: nat, bytes: nat) -> FlushThreshold {
    if count > MAX_MESSAGES_PER_PUBLISH || bytes > MAX_PUBLISH_REQUEST_BYTES {
        FlushThreshold::Greater
    } else if count == MAX_MESSAGES_PER_PUBLISH || bytes == MAX_PUBLISH_REQUEST_BYTES {
        FlushThreshold::Equal
    } else {
        FlushThreshold::Less
    }
}

/// The error text for a value beyond its limit: `{prefix}{value}{middle}{limit}{suffix}`.
pub open spec fn limit_text(
    prefix: Seq<char>,
    value: Seq<char>,
    middle: Seq<char>,
    limit: nat,
    suffix: Seq<char>,
) -> Seq<char> {
    prefix + value + middle + decimal_spec(limit) + suffix
}

/// The first attribute, from index `i` on, whose key or value is too long, as the text of the
/// error it causes.
pub open spec fn attribute_violation(attrs: Seq<(String, String)>, i: int) -> Option<Seq<char>>
    decreases attrs.len() - i,
{
    if i < 0 || i >= attrs.len() {
        None
    } else if utf8_len(attrs[i].0@) > MAX_ATTR_KEY_BYTES {
        Some(
            limit_text(
                "message attribute key "@,
                attrs[i].0@,
                " exceeds max "@,
                MAX_ATTR_KEY_BYTES as nat,
                " bytes"@,
            ),
        )
    } else if utf8_len(attrs[i].1@) > MAX_ATTR_VALUE_BYTES {
        Some(
            limit_text(
                "message attribute value "@,
                attrs[i].1@,
                " exceeds max "@,
                MAX_ATTR_VALUE_BYTES as nat,
                " bytes"@,
            ),
        )
    } else {
        attribute_violation(attrs, i + 1)
    }
}

/// The attributes from position `i` on are within the limits exactly when each key has at
/// most 256 and each value at most 1024 bytes of UTF-8.
proof fn lemma_attributes_within_limits(attrs: Seq<(String, String)>, i: int)
    requires
        0 <= i <= attrs.len(),
    ensures
        attribute_violation(attrs, i) is None <==> forall|j: int|
            i <= j < attrs.len() ==> utf8_len((#[trigger] attrs[j]).0@) <= 256 && utf8_len(attrs[j].1@) <= 1024,
    decreases attrs.len() - i,
{
    if i < attrs.len() {
        lemma_attributes_within_limits(attrs, i + 1);
        if utf8_len(attrs[i].0@) <= 256 && utf8_len(attrs[i].1@) <= 1024 && attribute_violation(attrs, i + 1) is None {
            assert forall|j: int| i <= j < attrs.len() implies utf8_len((#[trigger] attrs[j]).0@) <= 256
                && utf8_len(attrs[j].1@) <= 1024 by {
                if j > i {
                }
            }
        }
    }
}

/// The per-message limits, written out: a message is accepted exactly when it has at most 100
/// attributes, at most 10,000,000 bytes of data, and every attribute key has at most 256 and
/// every attribute value at most 1024 bytes of UTF-8. So an attribute value is refused only
/// when it is over 1024 bytes, and a key only when it is over 256.
pub proof fn lemma_message_limits(m: PubsubMessage)
    ensures
        message_violation(m) is None <==> {
            &&& m.attributes@.len() <= 100
            &&& m.data@.len() <= 10_000_000
            &&& forall|j: int|
                0 <= j < m.attributes@.len() ==> utf8_len((#[trigger] m.attributes@[j]).0@) <= 256
                    && utf8_len(m.attributes@[j].1@) <= 1024
        },
{
    lemma_attributes_within_limits(m.attributes@, 0);
}

/// The text of the error for a message that breaks the per-message limits, checked in order:
/// the number of attributes, the size of the data, then each attribute's key and value.
/// `None` for a message within the limits.
pub open spec fn message_violation(m: PubsubMessage) -> Option<Seq<char>> {
    if m.attributes.len() > MAX_ATTR_PER_MESSAGE {
        Some(
            limit_text(
                "message has "@,
                decimal_spec(m.attributes.len() as nat),
                " attributes, exceeds max "@,
                MAX_ATTR_PER_MESSAGE as nat,
                ""@,
            ),
        )
    } else if m.data.len() > MAX_DATA_FIELD_BYTES {
        Some(
            limit_text(
                "message has "@,
                decimal_spec(m.data.len() as nat),
                " data bytes, exceeds max "@,
                MAX_DATA_FIELD_BYTES as nat,
                " bytes"@,
            ),
        )
    } else {
        attribute_violation(m.attributes@, 0)
    }
}

/// The text of the error for a single message that alone exceeds the request size limit.
pub open spec fn oversize_text(len: nat) -> Seq<char> {
    "submitted message which exceeds request size limit ("@ + decimal_spec(len)
        + " bytes, limit "@ + decimal_spec(MAX_PUBLISH_REQUEST_BYTES as nat) + ")"@
}

/// The text of the error for a publish response whose ids do not match the request.
pub open spec fn id_mismatch_text(got: nat, expected: nat) -> Seq<char> {
    "publish response had "@ + decimal_spec(got) + " ids when expected "@ + decimal_spec(
        expected,
    )
}

/// `{a}{b}{c}{d}{e}` as one string.
fn join5(a: &str, b: &str, c: &str, d: &str, e: &str) -> (r: String)
    ensures
        r@ == a@ + b@ + c@ + d@ + e@,
{
    let pieces = [a, b, c, d, e];
    let s = concat_strs(&pieces);
    proof {
        reveal_with_fuel(Seq::fold_left, 6);
        let v = pieces@.map_values(|p: &str| p@);
        assert(v =~= seq![a@, b@, c@, d@, e@]);
        assert(v.drop_last().drop_last().drop_last().drop_last().drop_last() =~= Seq::<
            Seq<char>,
        >::empty());
    }
    s
}

fn limit_message(prefix: &str, value: &str, middle: &str, limit: usize, suffix: &str) -> (r:
    String)
    ensures
        r@ == limit_text(prefix@, value@, middle@, limit as nat, suffix@),
{
    let l = decimal(limit);
    join5(prefix, value, middle, l.as_str(), suffix)
}

/// The error for a message that breaks the per-message limits, holding that message.
fn invalid_message(text: String, message: PubsubMessage) -> (e: PublishError)
    ensures
        e.source.code_spec() == Code::InvalidArgument,
        e.source.message_spec() == text@,
        e.messages@ == seq![message],
{
    let mut messages = Vec::new();
    messages.push(message);
    PublishError { source: Status::invalid_argument(text), messages }
}

/// Check a message against the per-message limits, returning the text of the first violation.
pub fn check_message(message: &PubsubMessage) -> (r: Option<String>)
    ensures
        match r {
            Some(t) => message_violation(*message) == Some(t@),
            None => message_violation(*message) is None,
        },
{
    proof {
        reveal_strlit("message attribute key ");
        reveal_strlit("message attribute value ");
        reveal_strlit(" exceeds max ");
        reveal_strlit("message has ");
        reveal_strlit(" attributes, exceeds max ");
        reveal_strlit(" data bytes, exceeds max ");
        reveal_strlit(" bytes");
        reveal_strlit("");
    }
    if message.attributes.len() > MAX_ATTR_PER_MESSAGE {
        let n = decimal(message.attributes.len());
        return Some(
            limit_message(
                "message has ",
                n.as_str(),
                " attributes, exceeds max ",
                MAX_ATTR_PER_MESSAGE,
                "",
            ),
        );
    }
    if message.data.len() > MAX_DATA_FIELD_BYTES {
        let n = decimal(message.data.len());
        return Some(
            limit_message(
                "message has ",
                n.as_str(),
                " data bytes, exceeds max ",
                MAX_DATA_FIELD_BYTES,
                " bytes",
            ),
        );
    }
    let mut i: usize = 0;
    while i < message.attributes.len()
        invariant
            i <= message.attributes.len(),
            message.attributes.len() <= MAX_ATTR_PER_MESSAGE,
            message.data.len() <= MAX_DATA_FIELD_BYTES,
            attribute_violation(message.attributes@, 0) == attribute_violation(
                message.attributes@,
                i as int,
            ),
        decreases message.attributes.len() - i,
    {
        let (key, value) = &message.attributes[i];
        if utf8_byte_len(key.as_str()) > MAX_ATTR_KEY_BYTES {
            return Some(
                limit_message(
                    "message attribute key ",
                    key.as_str(),
                    " exceeds max ",
                    MAX_ATTR_KEY_BYTES,
                    " bytes",
                ),
            );
        }
        if utf8_byte_len(value.as_str()) > MAX_ATTR_VALUE_BYTES {
            return Some(
                limit_message(
                    "message attribute value ",
                    value.as_str(),
                    " exceeds max ",
                    MAX_ATTR_VALUE_BYTES,
                    " bytes",
                ),
            );
        }
        i += 1;
    }
    None
}

/// A buffer to hold several sink messages before flushing them in a batch as a single request
pub struct PublishBuffer {
    /// The actual buffer is the message list of this request
    request: PublishRequest,
    /// The encoded length of `request`, cached because the threshold is checked often
    encoded_len: usize,
}

impl PublishBuffer {
    /// The topic of the buffered request.
    pub closed spec fn topic(self) -> Seq<char> {
        self.request.topic@
    }

    /// The buffered messages, in the order in which they were submitted.
    pub closed spec fn messages(self) -> Seq<PubsubMessage> {
        self.request.messages@
    }

    /// The cached encoded length equals the encoded length of the buffered request, and the
    /// topic alone fits within the request size limit.
    pub closed spec fn wf(self) -> bool {
        &&& self.encoded_len == sat(request_len(self.request.topic@, self.request.messages@))
        &&& string_field_len(1, self.request.topic@) < MAX_PUBLISH_REQUEST_BYTES
    }

    /// The flush threshold of the buffered request.
    pub open spec fn threshold(self) -> FlushThreshold {
        threshold_spec(self.messages().len(), request_len(self.topic(), self.messages()))
    }

    /// The buffered request is beyond the limits by at most its last message: this is what
    /// requiring `poll_ready` before each `start_send` guarantees.
    pub open spec fn at_most_one_excess(self) -> bool {
        self.threshold() == FlushThreshold::Greater && self.messages().len() >= 2 ==> threshold_spec(
            (self.messages().len() - 1) as nat,
            request_len(self.topic(), self.messages().drop_last()),
        ) == FlushThreshold::Less
    }

    /// Whether a buffer for the given topic can be created: a request holding only the topic
    /// must stay below the request size limit.
    pub fn topic_fits(topic: &String) -> (r: bool)
        ensures
            r == (string_field_len(1, topic@) < MAX_PUBLISH_REQUEST_BYTES),
    {
        let request = PublishRequest { topic: topic.clone(), messages: Vec::new() };
        let len = request.encoded_len();
        proof {
            assert(request.messages@ =~= Seq::<PubsubMessage>::empty());
        }
        len < MAX_PUBLISH_REQUEST_BYTES
    }

    /// Create an empty buffer for the given topic.
    pub fn new(topic: String) -> (b: Self)
        requires
            string_field_len(1, topic@) < MAX_PUBLISH_REQUEST_BYTES,
        ensures
            b.wf(),
            b.topic() == topic@,
            b.messages() == Seq::<PubsubMessage>::empty(),
    {
        let request = PublishRequest { topic, messages: Vec::new() };
        let encoded_len = request.encoded_len();
        PublishBuffer { request, encoded_len }
    }

    /// Whether no message is buffered.
    pub fn is_empty(&self) -> (r: bool)
        ensures
            r == (self.messages().len() == 0),
    {
        self.request.messages.len() == 0
    }

    /// The number of bytes of the encoded buffered request.
    pub fn encoded_len(&self) -> (r: usize)
        requires
            self.wf(),
        ensures
            r == sat(request_len(self.topic(), self.messages())),
    {
        self.encoded_len
    }

    /// Check whether the currently buffered request has hit the flushing threshold
    pub fn compare_flush_threshold(&self) -> (r: FlushThreshold)
        requires
            self.wf(),
        ensures
            r == self.threshold(),
    {
        let messages = self.request.messages.len();
        let bytes = self.encoded_len;
        if messages > MAX_MESSAGES_PER_PUBLISH || bytes > MAX_PUBLISH_REQUEST_BYTES {
            FlushThreshold::Greater
        } else if messages == MAX_MESSAGES_PER_PUBLISH || bytes == MAX_PUBLISH_REQUEST_BYTES {
            FlushThreshold::Equal
        } else {
            FlushThreshold::Less
        }
    }

    /// Whether the buffered request is beyond the limits by at most its last message.
    pub fn check_at_most_one_excess(&self) -> (r: bool)
        requires
            self.wf(),
        ensures
            r == self.at_most_one_excess(),
    {
        if self.compare_flush_threshold() != FlushThreshold::Greater
            || self.request.messages.len() < 2 {
            return true;
        }
        let count = self.request.messages.len() - 1;
        let rest = self.request.encoded_len_prefix(count);
        proof {
            assert(self.request.messages@.subrange(0, count as int) =~= self.request.messages@.drop_last());
        }
        count < MAX_MESSAGES_PER_PUBLISH && rest < MAX_PUBLISH_REQUEST_BYTES
    }

    /// Check a message against the per-message limits and add it to the buffer. A message
    /// beyond the limits is returned in an `InvalidArgument` error and the buffer is unchanged.
    pub fn push(&mut self, message: PubsubMessage) -> (r: Result<(), PublishError>)
        requires
            old(self).wf(),
            attribute_keys_distinct(message.attributes@),
        ensures
            final(self).wf(),
            final(self).topic() == old(self).topic(),
            match r {
                Ok(()) => {
                    &&& message_violation(message) is None
                    &&& final(self).messages() == old(self).messages().push(message)
                },
                Err(e) => {
                    &&& message_violation(message) == Some(e.source.message_spec())
                    &&& e.source.code_spec() == Code::InvalidArgument
                    &&& e.messages@ == seq![message]
                    &&& final(self).messages() == old(self).messages()
                },
            },
            old(self).threshold() == FlushThreshold::Less ==> final(self).at_most_one_excess(),
    {
        match check_message(&message) {
            Some(text) => {
                return Err(invalid_message(text, message));
            },
            None => {},
        }
        let m_len = message.encoded_len();
        let d = delimited_size(m_len, Ghost(message_len(message)));
        proof {
            lemma_request_len_push(self.request.topic@, self.request.messages@, message);
            crate::text::lemma_sat_add(
                request_len(self.request.topic@, self.request.messages@),
                delimited_len(2, message_len(message)),
            );
        }
        self.encoded_len = self.encoded_len.saturating_add(d);
        self.request.messages.push(message);
        proof {
            assert(self.request.messages@.drop_last() =~= old(self).request.messages@);
        }
        Ok(())
    }

    /// Remove and return the last buffered message.
    pub fn pop(&mut self) -> (r: Option<PubsubMessage>)
        requires
            old(self).wf(),
        ensures
            final(self).wf(),
            final(self).topic() == old(self).topic(),
            if old(self).messages().len() == 0 {
                r is None && final(self).messages() == old(self).messages()
            } else {
                r == Some(old(self).messages().last()) && final(self).messages() == old(
                    self,
                ).messages().drop_last()
            },
    {
        let msg = self.request.messages.pop();
        proof {
            if old(self).request.messages@.len() > 0 {
                lemma_request_len_pop(old(self).request.topic@, old(self).request.messages@);
            }
        }
        self.encoded_len = self.request.encoded_len();
        msg
    }

    /// Switch the currently buffering request for a new one, returning the filled request for
    /// publishing.
    ///
    /// A request beyond the limits hands its last message on to the new buffer. When that
    /// message is the only one, it can never be published: it is returned in an
    /// `InvalidArgument` error instead.
    pub fn swap_buffers(&mut self) -> (r: Result<PublishRequest, PublishError>)
        requires
            old(self).wf(),
            old(self).at_most_one_excess(),
        ensures
            final(self).wf(),
            final(self).topic() == old(self).topic(),
            old(self).threshold() == FlushThreshold::Greater && old(self).messages().len() == 1
                ==> r is Err,
            match r {
                Ok(req) => {
                    &&& req.topic@ == old(self).topic()
                    &&& req.messages@ + final(self).messages() == old(self).messages()
                    &&& threshold_spec(req.messages@.len(), request_len(req.topic@, req.messages@))
                        != FlushThreshold::Greater
                    &&& if old(self).threshold() == FlushThreshold::Greater {
                        final(self).messages() == seq![old(self).messages().last()]
                    } else {
                        final(self).messages() == Seq::<PubsubMessage>::empty()
                    }
                },
                Err(e) => {
                    &&& old(self).threshold() == FlushThreshold::Greater
                    &&& old(self).messages().len() == 1
                    &&& e.source.code_spec() == Code::InvalidArgument
                    &&& e.source.message_spec() == oversize_text(
                        sat(request_len(old(self).topic(), old(self).messages())),
                    )
                    &&& e.messages@ == old(self).messages()
                    &&& final(self).messages() == Seq::<PubsubMessage>::empty()
                },
            },
    {
        let mut new_messages: Vec<PubsubMessage> = Vec::new();
        if self.compare_flush_threshold() == FlushThreshold::Greater {
            let len_before_pop = self.encoded_len;
            proof {
                // with no message the request is the topic alone, which fits
                if self.request.messages@.len() == 0 {
                    assert(self.request.messages@ =~= Seq::<PubsubMessage>::empty());
                }
            }
            let popped = self.pop();
            match popped {
                Some(message) => {
                    if self.is_empty() {
                        proof {
                            reveal_strlit("submitted message which exceeds request size limit (");
                            reveal_strlit(" bytes, limit ");
                            reveal_strlit(")");
                        }
                        let n = decimal(len_before_pop);
                        let l = decimal(MAX_PUBLISH_REQUEST_BYTES);
                        let text = join5(
                            "submitted message which exceeds request size limit (",
                            n.as_str(),
                            " bytes, limit ",
                            l.as_str(),
                            ")",
                        );
                        let err = invalid_message(text, message);
                        proof {
                            assert(err.messages@ =~= old(self).messages());
                        }
                        return Err(err);
                    }
                    new_messages.push(message);
                },
                None => {},
            }
        }
        let topic = self.request.topic.clone();
        let new_request = PublishRequest { topic, messages: new_messages };
        let encoded_len = new_request.encoded_len();
        let mut old_buffer = PublishBuffer { request: new_request, encoded_len };
        std::mem::swap(self, &mut old_buffer);
        proof {
            assert(old_buffer.request.messages@ + self.request.messages@ =~= old(self).request.messages@);
        }
        Ok(old_buffer.request)
    }
}

/// What a publishing sink does next to flush its buffer, when no publish is in flight.
pub enum FlushStep {
    /// Nothing is to be published now: the sink is ready.
    Ready,
    /// This request is to be published; the buffer now holds what comes after it.
    Publish(PublishRequest),
}

/// Decide the next flushing step of a sink with no publish in flight. An empty buffer is
/// ready; so is a buffer below the limits when the caller only makes room for one more
/// message (`flush_everything` false). Otherwise the buffer is swapped out for publishing.
/// After each step the buffer is again beyond the limits by at most its last message.
pub fn flush_step(buffer: &mut PublishBuffer, flush_everything: bool) -> (r: Result<
    FlushStep,
    PublishError,
>)
    requires
        old(buffer).wf(),
        old(buffer).at_most_one_excess(),
    ensures
        final(buffer).wf(),
        final(buffer).at_most_one_excess(),
        old(buffer).threshold() == FlushThreshold::Greater && old(buffer).messages().len() == 1
            ==> r is Err,
        final(buffer).topic() == old(buffer).topic(),
        old(buffer).messages().len() == 0 ==> (r matches Ok(FlushStep::Ready) && final(buffer).messages() == old(buffer).messages()),
        old(buffer).messages().len() > 0 && !flush_everything && old(buffer).threshold()
            == FlushThreshold::Less ==> (r matches Ok(FlushStep::Ready) && final(buffer).messages()
            == old(buffer).messages()),
        r matches Ok(FlushStep::Ready) ==> final(buffer).messages() == old(buffer).messages() && (
        old(buffer).messages().len() == 0 || (!flush_everything && old(buffer).threshold()
            == FlushThreshold::Less)),
        match r {
            Ok(FlushStep::Ready) => true,
            Ok(FlushStep::Publish(req)) => {
                &&& old(buffer).messages().len() > 0
                &&& (flush_everything || old(buffer).threshold() != FlushThreshold::Less)
                &&& req.topic@ == old(buffer).topic()
                &&& req.messages@ + final(buffer).messages() == old(buffer).messages()
                &&& threshold_spec(req.messages@.len(), request_len(req.topic@, req.messages@))
                    != FlushThreshold::Greater
                &&& if old(buffer).threshold() == FlushThreshold::Greater {
                    final(buffer).messages() == seq![old(buffer).messages().last()]
                } else {
                    final(buffer).messages() == Seq::<PubsubMessage>::empty()
                }
            },
            Err(e) => {
                &&& old(buffer).threshold() == FlushThreshold::Greater
                &&& old(buffer).messages().len() == 1
                &&& e.source.code_spec() == Code::InvalidArgument
                &&& e.source.message_spec() == oversize_text(
                    sat(request_len(old(buffer).topic(), old(buffer).messages())),
                )
                &&& e.messages@ == old(buffer).messages()
                &&& final(buffer).messages() == Seq::<PubsubMessage>::empty()
            },
        },
{
    if buffer.is_empty() {
        return Ok(FlushStep::Ready);
    }
    if !flush_everything && buffer.compare_flush_threshold() == FlushThreshold::Less {
        return Ok(FlushStep::Ready);
    }
    match buffer.swap_buffers() {
        Ok(request) => Ok(FlushStep::Publish(request)),
        Err(e) => Err(e),
    }
}

/// The encoded length of the delimited message field holding a message of length `len`.
fn delimited_size(len: usize, Ghost(n): Ghost<nat>) -> (r: usize)
    requires
        len == sat(n),
    ensures
        r == sat(delimited_len(2, n)),
{
    super::message::delimited_field(2, len, Ghost(n))
}

/// Assign the ids of a publish response to the messages of the request, in order. A response
/// whose number of ids differs from the number of messages is an `Internal` error holding all
/// the messages.
pub fn assign_message_ids(request: PublishRequest, ids: Vec<String>) -> (r: Result<
    Vec<PubsubMessage>,
    PublishError,
>)
    ensures
        match r {
            Ok(ms) => {
                &&& ids@.len() == request.messages@.len()
                &&& ms@.len() == request.messages@.len()
                &&& forall|i: int|
                    0 <= i < ms@.len() ==> #[trigger] ms@[i] == (PubsubMessage {
                        message_id: ids@[i],
                        ..request.messages@[i]
                    })
            },
            Err(e) => {
                &&& ids@.len() != request.messages@.len()
                &&& e.source.code_spec() == Code::Internal
                &&& e.source.message_spec() == id_mismatch_text(
                    ids@.len(),
                    request.messages@.len(),
                )
                &&& e.messages@ == request.messages@
            },
        },
{
    if ids.len() != request.messages.len() {
        proof {
            reveal_strlit("publish response had ");
            reveal_strlit(" ids when expected ");
            reveal_strlit("");
        }
        let got = decimal(ids.len());
        let expected = decimal(request.messages.len());
        let text = join5("publish response had ", got.as_str(), " ids when expected ", expected.as_str(), "");
        return Err(PublishError { source: Status::internal(text), messages: request.messages });
    }
    let mut out: Vec<PubsubMessage> = Vec::new();
    let mut messages = request.messages;
    let mut ids = ids;
    let ghost all_ids = ids@;
    let ghost all_messages = messages@;
    // walk from the back so that each message and id can be moved out
    while messages.len() > 0
        invariant
            messages@.len() == ids@.len(),
            messages@.len() + out@.len() == all_messages.len(),
            all_ids.len() == all_messages.len(),
            messages@ == all_messages.subrange(0, messages@.len() as int),
            ids@ == all_ids.subrange(0, ids@.len() as int),
            forall|j: int|
                0 <= j < out@.len() ==> #[trigger] out@[j] == (PubsubMessage {
                    message_id: all_ids[all_messages.len() - 1 - j],
                    ..all_messages[all_messages.len() - 1 - j]
                }),
        decreases messages.len(),
    {
        let m = messages.pop().unwrap();
        let id = ids.pop().unwrap();
        out.push(PubsubMessage { message_id: id, ..m });
    }
    let mut result: Vec<PubsubMessage> = Vec::new();
    while out.len() > 0
        invariant
            result@.len() + out@.len() == all_messages.len(),
            all_ids.len() == all_messages.len(),
            forall|j: int|
                0 <= j < out@.len() ==> #[trigger] out@[j] == (PubsubMessage {
                    message_id: all_ids[all_messages.len() - 1 - j],
                    ..all_messages[all_messages.len() - 1 - j]
                }),
            forall|i: int|
                0 <= i < result@.len() ==> #[trigger] result@[i] == (PubsubMessage {
                    message_id: all_ids[i],
                    ..all_messages[i]
                }),
        decreases out.len(),
    {
        let m = out.pop().unwrap();
        result.push(m);
    }
    Ok(result)
}

/// Popping right after a successful push gives back the pushed message, and leaves the
/// buffer as it was before the push.
pub proof fn lemma_pop_undoes_push(
    before: PublishBuffer,
    pushed: PublishBuffer,
    popped: PublishBuffer,
    m: PubsubMessage,
    r: Option<PubsubMessage>,
)
    requires
        pushed.topic() == before.topic(),
        pushed.messages() == before.messages().push(m),
        popped.topic() == pushed.topic(),
        r == Some(pushed.messages().last()),
        popped.messages() == pushed.messages().drop_last(),
    ensures
        r == Some(m),
        popped.topic() == before.topic(),
        popped.messages() == before.messages(),
{
    assert(before.messages().push(m).drop_last() =~= before.messages());
}

/// Messages are published in the order in which they were pushed, each exactly once: if the
/// messages published so far followed by the buffer are the messages pushed, the same holds
/// after publishing the request that a flush step swaps out.
pub proof fn lemma_flush_keeps_order(
    published: Seq<PubsubMessage>,
    pushed: Seq<PubsubMessage>,
    before: PublishBuffer,
    request: Seq<PubsubMessage>,
    after: PublishBuffer,
)
    requires
        published + before.messages() == pushed,
        request + after.messages() == before.messages(),
    ensures
        (published + request) + after.messages() == pushed,
{
    assert((published + request) + after.messages() =~= published + (request + after.messages()));
}

} // verus!
