//! The Pub/Sub message and publish request, and the length of their protobuf encoding.
//!
//! A publish request may hold at most a fixed number of encoded bytes, so the publisher keeps
//! track of the encoded length of the request it is filling. The lengths follow the protobuf
//! wire format of the Pub/Sub schema (`google.pubsub.v1.PubsubMessage` and `PublishRequest`):
//! every present field is a key (its tag and wire type, as a varint) followed by its payload,
//! length-delimited payloads carry their length as a varint, and fields holding their default
//! value are left out.
use vstd::prelude::*;

use crate::text::{sat, str_eq, utf8_byte_len, utf8_len};

verus! {

/// The number of bytes of the LEB128 (varint) encoding of a value.
pub open spec fn varint_len(v: nat) -> nat
    decreases v,
{
    if v < 128 {
        1
    } else {
        1 + varint_len(v / 128)
    }
}

/// `prost::encoding::encoded_len_varint` returns the length of the LEB128 encoding of its
/// argument, as its documentation states.
pub assume_specification[ prost::encoding::encoded_len_varint ](value: u64) -> (r: usize)
    ensures
        r == varint_len(value as nat),
;

/// `prost::encoding::key_len` returns the length of the varint encoding of the field key
/// `tag << 3`, the shift dropping the bits beyond 32 as a `u32` shift does.
pub assume_specification[ prost::encoding::key_len ](tag: u32) -> (r: usize)
    ensures
        r == varint_len((tag as nat * 8) % 0x1_0000_0000),
;

/// The length of a length-delimited field with the given tag and payload length.
pub open spec fn delimited_len(tag: nat, len: nat) -> nat {
    varint_len(tag * 8) + varint_len(len) + len
}

/// The length of a string field; empty strings are not encoded.
pub open spec fn string_field_len(tag: nat, s: Seq<char>) -> nat {
    if s.len() == 0 {
        0
    } else {
        delimited_len(tag, utf8_len(s))
    }
}

/// The length of a bytes field; empty byte strings are not encoded.
pub open spec fn bytes_field_len(tag: nat, d: Seq<u8>) -> nat {
    if d.len() == 0 {
        0
    } else {
        delimited_len(tag, d.len())
    }
}

/// The length of a varint field holding the given 64-bit pattern; zero is not encoded.
pub open spec fn varint_field_len(tag: nat, v: u64) -> nat {
    if v == 0 {
        0
    } else {
        varint_len(tag * 8) + varint_len(v as nat)
    }
}

/// A point in time: seconds and nanoseconds since the Unix epoch.
#[derive(Clone, Copy, Debug, PartialEq, Eq, Structural)]
pub struct Timestamp {
    /// Seconds of UTC time since the Unix epoch.
    pub seconds: i64,
    /// Non-negative fractions of a second at nanosecond resolution.
    pub nanos: i32,
}

/// The encoded length of a timestamp message (`seconds` = 1, `nanos` = 2).
pub open spec fn timestamp_len(ts: Timestamp) -> nat {
    varint_field_len(1, ts.seconds as u64) + varint_field_len(2, ts.nanos as u64)
}

/// Whether the keys of a list of attributes are distinct, as the keys of a map are.
pub open spec fn attribute_keys_distinct(attrs: Seq<(String, String)>) -> bool {
    forall|i: int, j: int| 0 <= i < j < attrs.len() ==> (#[trigger] attrs[i]).0@ != (
    #[trigger] attrs[j]).0@
}

/// Whether the keys of a list of attributes are distinct (quadratic in the number of
/// attributes, which a message holds few of).
pub fn attribute_keys_are_distinct(attrs: &Vec<(String, String)>) -> (r: bool)
    ensures
        r == attribute_keys_distinct(attrs@),
{
    let n = attrs.len();
    let mut j: usize = 0;
    while j < n
        invariant
            n == attrs@.len(),
            j <= n,
            forall|a: int, b: int| 0 <= a < b < j ==> (#[trigger] attrs@[a]).0@ != (#[trigger] attrs@[b]).0@,
        decreases n - j,
    {
        let mut i: usize = 0;
        while i < j
            invariant
                n == attrs@.len(),
                i <= j < n,
                forall|a: int| 0 <= a < i ==> (#[trigger] attrs@[a]).0@ != attrs@[j as int].0@,
            decreases j - i,
        {
            if str_eq(attrs[i].0.as_str(), attrs[j].0.as_str()) {
                return false;
            }
            i = i + 1;
        }
        j = j + 1;
    }
    true
}

/// A message published to, or received from, a topic.
///
/// `attributes` holds the attribute map of the protobuf schema as key-value pairs; a message
/// handed to a publish buffer must have distinct keys (`attribute_keys_distinct`), as a map
/// does.
#[derive(Clone, Debug, PartialEq, Eq, Default)]
pub struct PubsubMessage {
    /// The message payload.
    pub data: Vec<u8>,
    /// Attributes for this message.
    pub attributes: Vec<(String, String)>,
    /// The id assigned by the server when the message is published.
    pub message_id: String,
    /// The time at which the message was published, set by the server.
    pub publish_time: Option<Timestamp>,
    /// Messages with the same ordering key are delivered in order.
    pub ordering_key: String,
}

/// The encoded length of one attribute map entry (key = 1, value = 2).
pub open spec fn entry_len(key: Seq<char>, value: Seq<char>) -> nat {
    string_field_len(1, key) + string_field_len(2, value)
}

/// The encoded length of the attribute map, field 2 of a message.
pub open spec fn attributes_len(attrs: Seq<(String, String)>) -> nat
    decreases attrs.len(),
{
    if attrs.len() == 0 {
        0
    } else {
        attributes_len(attrs.drop_last()) + delimited_len(
            2,
            entry_len(attrs.last().0@, attrs.last().1@),
        )
    }
}

/// The encoded length of the optional publish time, field 4 of a message.
pub open spec fn publish_time_len(t: Option<Timestamp>) -> nat {
    match t {
        Some(ts) => delimited_len(4, timestamp_len(ts)),
        None => 0,
    }
}

/// The encoded length of a message: `data` = 1, `attributes` = 2, `message_id` = 3,
/// `publish_time` = 4, `ordering_key` = 5.
pub open spec fn message_len(m: PubsubMessage) -> nat {
    bytes_field_len(1, m.data@) + attributes_len(m.attributes@) + string_field_len(
        3,
        m.message_id@,
    ) + publish_time_len(m.publish_time) + string_field_len(5, m.ordering_key@)
}

/// The encoded length of the repeated message field, field 2 of a publish request.
pub open spec fn messages_len(ms: Seq<PubsubMessage>) -> nat
    decreases ms.len(),
{
    if ms.len() == 0 {
        0
    } else {
        messages_len(ms.drop_last()) + delimited_len(2, message_len(ms.last()))
    }
}

/// A request to publish messages to a topic.
#[derive(Clone, Debug, PartialEq, Eq, Default)]
pub struct PublishRequest {
    /// The topic to which messages are published, `projects/{project}/topics/{topic}`.
    pub topic: String,
    /// The messages to publish.
    pub messages: Vec<PubsubMessage>,
}

/// The encoded length of a publish request with the given topic and messages (`topic` = 1,
/// `messages` = 2).
pub open spec fn request_len(topic: Seq<char>, ms: Seq<PubsubMessage>) -> nat {
    string_field_len(1, topic) + messages_len(ms)
}

/// Add two saturated lengths.
fn add_sat(a: usize, b: usize, Ghost(x): Ghost<nat>, Ghost(y): Ghost<nat>) -> (r: usize)
    requires
        a == sat(x),
        b == sat(y),
    ensures
        r == sat(x + y),
{
    a.saturating_add(b)
}

/// The encoded length of a length-delimited field whose payload length is `len` (saturated).
pub(crate) fn delimited_field(tag: u32, len: usize, Ghost(n): Ghost<nat>) -> (r: usize)
    requires
        1 <= tag <= 5,
        len == sat(n),
    ensures
        r == sat(delimited_len(tag as nat, n)),
{
    if len == usize::MAX {
        return usize::MAX;
    }
    proof {
        lemma_varint_len_small(n);
        lemma_varint_len_small(tag as nat * 8);
        assert((tag as nat * 8) % 0x1_0000_0000 == tag as nat * 8);
    }
    let k = prost::encoding::key_len(tag);
    let v = prost::encoding::encoded_len_varint(len as u64);
    let kv = add_sat(k, v, Ghost(varint_len(tag as nat * 8)), Ghost(varint_len(n)));
    add_sat(kv, len, Ghost(varint_len(tag as nat * 8) + varint_len(n)), Ghost(n))
}

proof fn lemma_varint_len_small(n: nat)
    ensures
        1 <= varint_len(n) <= n + 1,
    decreases n,
{
    if n >= 128 {
        lemma_varint_len_small(n / 128);
    }
}

/// The encoded length of a string field (saturated).
fn string_field(tag: u32, s: &String) -> (r: usize)
    requires
        1 <= tag <= 5,
    ensures
        r == sat(string_field_len(tag as nat, s@)),
{
    let len = utf8_byte_len(s.as_str());
    proof {
        lemma_utf8_len_zero(s@);
    }
    if len == 0 {
        0
    } else {
        delimited_field(tag, len, Ghost(utf8_len(s@)))
    }
}

proof fn lemma_utf8_len_zero(s: Seq<char>)
    ensures
        (utf8_len(s) == 0) == (s.len() == 0),
{
    reveal_with_fuel(vstd::utf8::encode_utf8, 1);
    if s.len() > 0 {
        let c = s[0] as u32;
        assert(vstd::utf8::encode_scalar(c).len() >= 1);
    }
}

/// The encoded length of a varint field (saturated).
fn varint_field(tag: u32, v: u64) -> (r: usize)
    requires
        1 <= tag <= 5,
    ensures
        r == sat(varint_field_len(tag as nat, v)),
{
    if v == 0 {
        0
    } else {
        proof {
            assert((tag as nat * 8) % 0x1_0000_0000 == tag as nat * 8);
        }
        let k = prost::encoding::key_len(tag);
        let n = prost::encoding::encoded_len_varint(v);
        proof {
            lemma_varint_len_small(tag as nat * 8);
            lemma_varint_len_small(v as nat);
        }
        add_sat(k, n, Ghost(varint_len(tag as nat * 8)), Ghost(varint_len(v as nat)))
    }
}

impl PubsubMessage {
    /// The encoded length of the attribute map (saturated).
    fn attributes_encoded_len(&self) -> (r: usize)
        ensures
            r == sat(attributes_len(self.attributes@)),
    {
        let mut total: usize = 0;
        for i in 0..self.attributes.len()
            invariant
                total == sat(attributes_len(self.attributes@.subrange(0, i as int))),
        {
            let (key, value) = &self.attributes[i];
            let k = string_field(1, key);
            let v = string_field(2, value);
            let e = add_sat(k, v, Ghost(string_field_len(1, key@)), Ghost(string_field_len(2, value@)));
            let d = delimited_field(2, e, Ghost(entry_len(key@, value@)));
            proof {
                let next = self.attributes@.subrange(0, i + 1);
                assert(next.drop_last() =~= self.attributes@.subrange(0, i as int));
                assert(next.last() == self.attributes@[i as int]);
            }
            total = add_sat(
                total,
                d,
                Ghost(attributes_len(self.attributes@.subrange(0, i as int))),
                Ghost(delimited_len(2, entry_len(key@, value@))),
            );
        }
        proof {
            assert(self.attributes@.subrange(0, self.attributes.len() as int) =~= self.attributes@);
        }
        total
    }

    /// The length of the protobuf encoding of this message (saturated at `usize::MAX`).
    pub fn encoded_len(&self) -> (r: usize)
        ensures
            r == sat(message_len(*self)),
    {
        let data = if self.data.len() == 0 {
            0
        } else {
            delimited_field(1, self.data.len(), Ghost(self.data@.len()))
        };
        let attrs = self.attributes_encoded_len();
        let id = string_field(3, &self.message_id);
        let time = match &self.publish_time {
            Some(ts) => {
                let s = varint_field(1, ts.seconds as u64);
                let n = varint_field(2, ts.nanos as u64);
                let t = add_sat(
                    s,
                    n,
                    Ghost(varint_field_len(1, ts.seconds as u64)),
                    Ghost(varint_field_len(2, ts.nanos as u64)),
                );
                delimited_field(4, t, Ghost(timestamp_len(*ts)))
            },
            None => 0,
        };
        let key = string_field(5, &self.ordering_key);
        let a = add_sat(
            data,
            attrs,
            Ghost(bytes_field_len(1, self.data@)),
            Ghost(attributes_len(self.attributes@)),
        );
        let b = add_sat(
            a,
            id,
            Ghost(bytes_field_len(1, self.data@) + attributes_len(self.attributes@)),
            Ghost(string_field_len(3, self.message_id@)),
        );
        let c = add_sat(
            b,
            time,
            Ghost(bytes_field_len(1, self.data@) + attributes_len(self.attributes@)
                + string_field_len(3, self.message_id@)),
            Ghost(publish_time_len(self.publish_time)),
        );
        add_sat(
            c,
            key,
            Ghost(bytes_field_len(1, self.data@) + attributes_len(self.attributes@)
                + string_field_len(3, self.message_id@) + publish_time_len(self.publish_time)),
            Ghost(string_field_len(5, self.ordering_key@)),
        )
    }
}

impl PublishRequest {
    /// The length of the protobuf encoding of this request (saturated at `usize::MAX`).
    pub fn encoded_len(&self) -> (r: usize)
        ensures
            r == sat(request_len(self.topic@, self.messages@)),
    {
        let r = self.encoded_len_prefix(self.messages.len());
        proof {
            assert(self.messages@.subrange(0, self.messages.len() as int) =~= self.messages@);
        }
        r
    }

    /// The length of the encoding of the request holding only the first `count` messages
    /// (saturated at `usize::MAX`).
    pub fn encoded_len_prefix(&self, count: usize) -> (r: usize)
        requires
            count <= self.messages.len(),
        ensures
            r == sat(request_len(self.topic@, self.messages@.subrange(0, count as int))),
    {
        let mut total = string_field(1, &self.topic);
        proof {
            assert(self.messages@.subrange(0, 0) =~= Seq::<PubsubMessage>::empty());
        }
        for i in 0..count
            invariant
                count <= self.messages.len(),
                total == sat(
                    string_field_len(1, self.topic@) + messages_len(
                        self.messages@.subrange(0, i as int),
                    ),
                ),
        {
            let m = self.messages[i].encoded_len();
            let d = delimited_field(2, m, Ghost(message_len(self.messages@[i as int])));
            proof {
                let next = self.messages@.subrange(0, i + 1);
                assert(next.drop_last() =~= self.messages@.subrange(0, i as int));
                assert(next.last() == self.messages@[i as int]);
            }
            total = add_sat(
                total,
                d,
                Ghost(string_field_len(1, self.topic@) + messages_len(
                    self.messages@.subrange(0, i as int),
                )),
                Ghost(delimited_len(2, message_len(self.messages@[i as int]))),
            );
        }
        total
    }
}

/// Appending a message adds the length of its delimited field to the encoded length of a
/// request.
pub proof fn lemma_request_len_push(topic: Seq<char>, ms: Seq<PubsubMessage>, m: PubsubMessage)
    ensures
        request_len(topic, ms.push(m)) == request_len(topic, ms) + delimited_len(2, message_len(m)),
{
    assert(ms.push(m).drop_last() =~= ms);
}

/// Removing the last message subtracts the length of its delimited field.
pub proof fn lemma_request_len_pop(topic: Seq<char>, ms: Seq<PubsubMessage>)
    requires
        ms.len() > 0,
    ensures
        request_len(topic, ms) == request_len(topic, ms.drop_last()) + delimited_len(
            2,
            message_len(ms.last()),
        ),
{
}

} // verus!
