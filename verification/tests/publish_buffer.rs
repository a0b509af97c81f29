use ya_gcp::pubsub::attribute_keys_are_distinct;
use ya_gcp::grpc::{Code, Status};
use ya_gcp::pubsub::{
    assign_message_ids, check_message, flush_step, publish_failed, FlushStep, FlushThreshold, PublishBuffer,
    PublishError, PublishRequest, PubsubMessage, SinkError, MAX_ATTR_KEY_BYTES, MAX_ATTR_PER_MESSAGE,
    MAX_ATTR_VALUE_BYTES, MAX_DATA_FIELD_BYTES, MAX_PUBLISH_REQUEST_BYTES,
};
use ya_gcp::retry_policy::RetryOperation;

fn dummy_buffer() -> PublishBuffer {
    let topic = "projects/dummy-project/topics/dummy-topic".to_string();
    assert!(PublishBuffer::topic_fits(&topic));
    PublishBuffer::new(topic)
}

fn ready(buffer: &mut PublishBuffer) {
    assert!(buffer.check_at_most_one_excess());
    match flush_step(buffer, false) {
        Ok(FlushStep::Ready) => {}
        _ => panic!("expected a ready buffer"),
    }
}

#[test]
fn too_many_attributes() {
    let mut buffer = dummy_buffer();
    ready(&mut buffer);
    let attributes = (0..(MAX_ATTR_PER_MESSAGE + 1))
        .map(|n| (format!("{:03}", n), n.to_string()))
        .collect::<Vec<(String, String)>>();
    let message = PubsubMessage { attributes, ..PubsubMessage::default() };
    let err = buffer.push(message.clone()).unwrap_err();
    assert_eq!(err.source.code(), Code::InvalidArgument);
    assert_eq!(err.source.message(), "message has 101 attributes, exceeds max 100");
    assert_eq!(err.messages, vec![message]);
    assert!(buffer.is_empty());
}

#[test]
fn too_long_attribute_key() {
    let mut buffer = dummy_buffer();
    ready(&mut buffer);
    let key = std::iter::repeat('a').take(MAX_ATTR_KEY_BYTES + 1).collect::<String>();
    let message = PubsubMessage {
        attributes: vec![(key.clone(), String::new())],
        ..PubsubMessage::default()
    };
    let err = buffer.push(message.clone()).unwrap_err();
    assert_eq!(err.source.code(), Code::InvalidArgument);
    assert_eq!(
        err.source.message(),
        format!("message attribute key {} exceeds max 256 bytes", key)
    );
    assert_eq!(err.messages, vec![message]);
}

#[test]
fn too_long_attribute_value() {
    let mut buffer = dummy_buffer();
    ready(&mut buffer);
    let value = std::iter::repeat('a').take(MAX_ATTR_VALUE_BYTES + 1).collect::<String>();
    let message = PubsubMessage {
        attributes: vec![(String::new(), value.clone())],
        ..PubsubMessage::default()
    };
    let err = buffer.push(message.clone()).unwrap_err();
    assert_eq!(err.source.code(), Code::InvalidArgument);
    assert_eq!(
        err.source.message(),
        format!("message attribute value {} exceeds max 1024 bytes", value)
    );
    assert_eq!(err.messages, vec![message]);
}

#[test]
fn too_large_message_data() {
    let mut buffer = dummy_buffer();
    ready(&mut buffer);
    let message = PubsubMessage {
        data: vec![0; MAX_DATA_FIELD_BYTES + 1],
        ..PubsubMessage::default()
    };
    let err = buffer.push(message.clone()).unwrap_err();
    assert_eq!(err.source.code(), Code::InvalidArgument);
    assert_eq!(
        err.source.message(),
        "message has 10000001 data bytes, exceeds max 10000000 bytes"
    );
    assert_eq!(err.messages, vec![message]);
}

#[test]
fn multibyte_key_counts_bytes() {
    // 129 two-byte characters: 258 bytes, beyond the key limit though only 129 characters
    let key = std::iter::repeat('é').take(129).collect::<String>();
    let message = PubsubMessage {
        attributes: vec![(key, String::new())],
        ..PubsubMessage::default()
    };
    assert!(check_message(&message).is_some());
    let key = std::iter::repeat('é').take(128).collect::<String>();
    let message = PubsubMessage {
        attributes: vec![(key, String::new())],
        ..PubsubMessage::default()
    };
    assert!(check_message(&message).is_none());
}

#[test]
fn too_large_combined_message_size() {
    let mut buffer = dummy_buffer();
    ready(&mut buffer);
    let message = PubsubMessage {
        data: vec![0; MAX_DATA_FIELD_BYTES - 1],
        attributes: vec![("a".to_string(), "b".to_string())],
        ..PubsubMessage::default()
    };
    // the total size is not checked on insertion, but on the next flush
    assert!(buffer.push(message.clone()).is_ok());
    assert_eq!(buffer.compare_flush_threshold(), FlushThreshold::Greater);
    let len = buffer.encoded_len();
    let err = match flush_step(&mut buffer, false) {
        Err(e) => e,
        Ok(_) => panic!("expected an oversize error"),
    };
    assert_eq!(err.source.code(), Code::InvalidArgument);
    assert_eq!(
        err.source.message(),
        format!(
            "submitted message which exceeds request size limit ({} bytes, limit {})",
            len, MAX_PUBLISH_REQUEST_BYTES
        )
    );
    assert_eq!(err.messages, vec![message]);
    assert!(buffer.is_empty());
}

#[test]
fn did_not_poll_ready() {
    let mut buffer = dummy_buffer();
    let message = PubsubMessage {
        data: vec![0; MAX_DATA_FIELD_BYTES * 2 / 3],
        ..PubsubMessage::default()
    };
    ready(&mut buffer);
    assert!(buffer.push(message.clone()).is_ok());
    // one excess message is normal
    assert!(buffer.push(message.clone()).is_ok());
    assert!(buffer.check_at_most_one_excess());
    // two excess messages are not
    assert!(buffer.push(message).is_ok());
    assert!(!buffer.check_at_most_one_excess());
}

#[test]
fn excess_message_moves_to_next_request() {
    let mut buffer = dummy_buffer();
    let first = PubsubMessage {
        data: vec![1; MAX_DATA_FIELD_BYTES * 2 / 3],
        ..PubsubMessage::default()
    };
    let second = PubsubMessage {
        data: vec![2; MAX_DATA_FIELD_BYTES * 2 / 3],
        ..PubsubMessage::default()
    };
    ready(&mut buffer);
    buffer.push(first.clone()).unwrap();
    ready(&mut buffer);
    buffer.push(second.clone()).unwrap();
    assert_eq!(buffer.compare_flush_threshold(), FlushThreshold::Greater);
    match flush_step(&mut buffer, false) {
        Ok(FlushStep::Publish(request)) => {
            assert_eq!(request.topic, "projects/dummy-project/topics/dummy-topic");
            assert_eq!(request.messages, vec![first]);
        }
        _ => panic!("expected a publish"),
    }
    assert_eq!(buffer.pop(), Some(second));
    assert!(buffer.is_empty());
}

#[test]
fn flush_everything_publishes_small_buffer() {
    let mut buffer = dummy_buffer();
    let m = PubsubMessage { data: b"hello".to_vec(), ..PubsubMessage::default() };
    buffer.push(m.clone()).unwrap();
    assert_eq!(buffer.compare_flush_threshold(), FlushThreshold::Less);
    // making room for one more message does not flush
    match flush_step(&mut buffer, false) {
        Ok(FlushStep::Ready) => {}
        _ => panic!("expected ready"),
    }
    match flush_step(&mut buffer, true) {
        Ok(FlushStep::Publish(request)) => assert_eq!(request.messages, vec![m]),
        _ => panic!("expected a publish"),
    }
    assert!(buffer.is_empty());
    match flush_step(&mut buffer, true) {
        Ok(FlushStep::Ready) => {}
        _ => panic!("expected ready"),
    }
}

#[test]
fn encoded_length_of_small_request() {
    let mut buffer = PublishBuffer::new("t".to_string());
    // topic field: tag, length, one byte
    assert_eq!(buffer.encoded_len(), 3);
    let m = PubsubMessage { data: b"ab".to_vec(), ..PubsubMessage::default() };
    assert_eq!(m.encoded_len(), 4);
    buffer.push(m).unwrap();
    // message field: tag, length, four bytes
    assert_eq!(buffer.encoded_len(), 9);
}

#[test]
#[should_panic]
fn buffer_topic_too_large() {
    let too_large_topic = std::iter::repeat('a').take(MAX_PUBLISH_REQUEST_BYTES).collect::<String>();
    // a buffer is made only for a topic that fits, as a caller outside the verifier must check
    assert!(PublishBuffer::topic_fits(&too_large_topic), "topic is too large for a publish request");
    PublishBuffer::new(too_large_topic);
}

#[test]
fn message_ids_assigned_in_order() {
    let m1 = PubsubMessage { data: b"1".to_vec(), ..PubsubMessage::default() };
    let m2 = PubsubMessage { data: b"2".to_vec(), ..PubsubMessage::default() };
    let request = PublishRequest { topic: "t".to_string(), messages: vec![m1.clone(), m2.clone()] };
    let out = assign_message_ids(request, vec!["id1".to_string(), "id2".to_string()]).unwrap();
    assert_eq!(out[0], PubsubMessage { message_id: "id1".to_string(), ..m1.clone() });
    assert_eq!(out[1], PubsubMessage { message_id: "id2".to_string(), ..m2.clone() });

    let request = PublishRequest { topic: "t".to_string(), messages: vec![m1.clone(), m2.clone()] };
    let err = assign_message_ids(request, vec!["id1".to_string()]).unwrap_err();
    assert_eq!(err.source.code(), Code::Internal);
    assert_eq!(err.source.message(), "publish response had 1 ids when expected 2");
    assert_eq!(err.messages, vec![m1, m2]);
}

#[test]
fn pop_undoes_push() {
    let mut buffer = dummy_buffer();
    let m1 = PubsubMessage { data: b"1".to_vec(), ..PubsubMessage::default() };
    let m2 = PubsubMessage { data: b"2".to_vec(), ..PubsubMessage::default() };
    buffer.push(m1.clone()).unwrap();
    let len = buffer.encoded_len();
    buffer.push(m2.clone()).unwrap();
    assert_eq!(buffer.pop(), Some(m2));
    assert_eq!(buffer.encoded_len(), len);
    assert_eq!(buffer.pop(), Some(m1));
    assert_eq!(buffer.pop(), None);
}

#[test]
fn messages_published_in_push_order() {
    let mut buffer = dummy_buffer();
    let mut published: Vec<PubsubMessage> = Vec::new();
    let mut pushed: Vec<PubsubMessage> = Vec::new();
    for n in 0..2500u32 {
        ready_or_publish(&mut buffer, &mut published);
        let m = PubsubMessage { data: n.to_be_bytes().to_vec(), ..PubsubMessage::default() };
        pushed.push(m.clone());
        buffer.push(m).unwrap();
    }
    loop {
        match flush_step(&mut buffer, true) {
            Ok(FlushStep::Publish(r)) => published.extend(r.messages),
            Ok(FlushStep::Ready) => break,
            Err(_) => panic!("no message is too large"),
        }
    }
    assert_eq!(published, pushed);
}

fn ready_or_publish(buffer: &mut PublishBuffer, published: &mut Vec<PubsubMessage>) {
    loop {
        match flush_step(buffer, false) {
            Ok(FlushStep::Publish(r)) => {
                assert!(r.messages.len() <= 1000);
                published.extend(r.messages)
            }
            Ok(FlushStep::Ready) => return,
            Err(_) => panic!("no message is too large"),
        }
    }
}

#[test]
fn publish_error_converts() {
    let e = PublishError { source: Status::internal("x".to_string()), messages: vec![] };
    let s: Status = e.into();
    assert_eq!(s.code(), Code::Internal);
    let e = PublishError { source: Status::aborted("y".to_string()), messages: vec![] };
    let s: SinkError<()> = e.into();
    assert!(matches!(s, SinkError::Publish(p) if p.source.code() == Code::Aborted));
}

struct OneRetry(u32);

impl RetryOperation<PublishRequest, Status> for OneRetry {
    fn check_retry(&mut self, _: &PublishRequest, _: &Status) -> Option<u64> {
        self.0 += 1;
        if self.0 == 1 { Some(25) } else { None }
    }
}

#[test]
fn failed_publish_is_retried_then_given_up() {
    let m = PubsubMessage { data: b"x".to_vec(), ..PubsubMessage::default() };
    let request = PublishRequest { topic: "t".to_string(), messages: vec![m.clone()] };
    let mut op = OneRetry(0);
    let error = Status::new(Code::Unavailable, "try later".to_string());
    let (ms, again) = publish_failed(&mut op, request, error.clone()).unwrap();
    assert_eq!(ms, 25);
    assert_eq!(again.topic, "t");
    assert_eq!(again.messages, vec![m.clone()]);
    let e = publish_failed(&mut op, again, error).unwrap_err();
    assert_eq!(e.source.code(), Code::Unavailable);
    assert_eq!(e.source.message(), "try later");
    assert_eq!(e.messages, vec![m]);
}

#[test]
fn attribute_keys_must_differ() {
    assert!(attribute_keys_are_distinct(&vec![]));
    assert!(attribute_keys_are_distinct(&vec![("a".to_string(), "1".to_string()), ("b".to_string(), "1".to_string())]));
    assert!(!attribute_keys_are_distinct(&vec![
        ("a".to_string(), "1".to_string()),
        ("b".to_string(), "2".to_string()),
        ("a".to_string(), "3".to_string()),
    ]));
}
