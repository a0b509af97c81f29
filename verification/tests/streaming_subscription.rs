use ya_gcp::grpc::{Code, Status};
use ya_gcp::pubsub::{
    ack_requests, nack_requests, modack_handler_requests, token_results, AcknowledgeError,
    AcknowledgeRequest, ModifyAckDeadlineRequest,
    ack_batches, ack_request, MAX_ACK_BATCH_SIZE, create_initial_streaming_pull_request, create_subsequent_streaming_pull_request,
    modack_requests, nack_request, validate_deadline, AckErr, ModifyAcknowledgeError, PubsubMessage,
    PullRetry, ReceivedMessage, StreamSubscriptionConfig, subscription_error,
};
use ya_gcp::retry_policy::{NoRetry, RetryBudget, RetryOperation, RetryPolicy};

#[test]
fn streaming_pull_requests() {
    let config = StreamSubscriptionConfig::new();
    let r = create_initial_streaming_pull_request(
        "test-subscription".to_string(),
        "test-client".to_string(),
        &config,
    );
    assert_eq!(r.subscription, "test-subscription");
    assert_eq!(r.client_id, "test-client");
    assert_eq!(r.stream_ack_deadline_seconds, 10);
    assert_eq!(r.max_outstanding_messages, 1000);
    assert_eq!(r.max_outstanding_bytes, 0);
    assert!(r.ack_ids.is_empty());

    let config = StreamSubscriptionConfig { stream_ack_deadline_secs: 31, ..config };
    let r = create_subsequent_streaming_pull_request(&config);
    assert_eq!(r.stream_ack_deadline_seconds, 31);
    assert_eq!(r.subscription, "");
    assert_eq!(r.client_id, "");
}

#[test]
fn deadline_validation() {
    assert_eq!(validate_deadline(600).ok(), Some(600));
    assert_eq!(validate_deadline(0).ok(), Some(0));
    match validate_deadline(601) {
        Err(ModifyAcknowledgeError::InvalidDeadline { seconds }) => assert_eq!(seconds, 601),
        _ => panic!("expected an invalid deadline"),
    }
}

#[test]
fn ack_and_nack_requests() {
    let sub = "test-subscription".to_string();
    let r = ack_request(&sub, vec!["ack-id1".to_string(), "ack-id2".to_string()]);
    assert_eq!(r.subscription, "test-subscription");
    assert_eq!(r.ack_ids, vec!["ack-id1".to_string(), "ack-id2".to_string()]);
    let r = nack_request(&sub, vec!["ack-id3".to_string()]);
    assert_eq!(r.ack_deadline_seconds, 0);
    assert_eq!(r.ack_ids, vec!["ack-id3".to_string()]);
}

#[test]
fn modacks_grouped_by_deadline() {
    let sub = "test-subscription".to_string();
    let batch = vec![
        ("ack-id1".to_string(), 10),
        ("ack-id2".to_string(), 20),
        ("ack-id3".to_string(), 10),
        ("ack-id4".to_string(), 5),
        ("ack-id5".to_string(), 20),
    ];
    let requests = modack_requests(&sub, batch);
    assert_eq!(requests.len(), 3);
    assert_eq!(requests[0].ack_deadline_seconds, 5);
    assert_eq!(requests[0].ack_ids, vec!["ack-id4".to_string()]);
    assert_eq!(requests[1].ack_deadline_seconds, 10);
    assert_eq!(requests[1].ack_ids, vec!["ack-id1".to_string(), "ack-id3".to_string()]);
    assert_eq!(requests[2].ack_deadline_seconds, 20);
    assert_eq!(requests[2].ack_ids, vec!["ack-id2".to_string(), "ack-id5".to_string()]);
    for r in &requests {
        assert_eq!(r.subscription, "test-subscription");
    }
    assert!(modack_requests(&sub, vec![]).is_empty());
}

#[test]
fn ack_error_causes_compare_by_code() {
    let a = AckErr::Request(Status::new(Code::Internal, "injected-error".to_string()));
    let b = AckErr::Request(Status::new(Code::Internal, "other".to_string()));
    let c = AckErr::Request(Status::new(Code::Aborted, "injected-error".to_string()));
    assert!(a.same_as(&b));
    assert!(!a.same_as(&c));
    assert!(AckErr::BackgroundTaskPanic.same_as(&AckErr::BackgroundTaskPanic));
    assert!(!AckErr::BackgroundTaskPanic.same_as(&a));
}

fn received(id: &str, data: Option<&[u8]>, attempt: i32) -> ReceivedMessage {
    ReceivedMessage {
        ack_id: id.to_string(),
        message: data.map(|d| PubsubMessage { data: d.to_vec(), ..PubsubMessage::default() }),
        delivery_attempt: attempt,
    }
}

#[test]
fn pull_delivers_messages_in_order() {
    let mut pull = PullRetry::new(NoRetry::new());
    let (delivered, err) = pull.receive(vec![received("ack1", Some(b"a"), 1), received("ack2", Some(b"b"), 2)]);
    assert!(err.is_none());
    assert_eq!(delivered.len(), 2);
    assert_eq!(delivered[0].ack_id, "ack1");
    assert_eq!(delivered[0].delivery_attempt, 1);
    assert_eq!(delivered[0].message.data, b"a".to_vec());
    assert_eq!(delivered[1].ack_id, "ack2");
    assert_eq!(delivered[1].message.data, b"b".to_vec());
}

#[test]
fn pull_stops_at_missing_message() {
    let mut pull = PullRetry::new(NoRetry::new());
    let (delivered, err) = pull.receive(vec![
        received("ack1", Some(b"a"), 0),
        received("ack2", None, 0),
        received("ack3", Some(b"c"), 0),
    ]);
    assert_eq!(delivered.len(), 1);
    assert_eq!(delivered[0].ack_id, "ack1");
    let err = err.expect("missing message is an error");
    assert_eq!(err.code(), Code::Internal);
    assert_eq!(err.message(), "message should be populated by RPC server");
}

#[test]
fn pull_failure_without_retries_gives_up() {
    let mut pull = PullRetry::new(NoRetry::new());
    let end = PullRetry::<NoRetry>::end_of_stream_error();
    assert_eq!(end.code(), Code::Aborted);
    assert_eq!(end.message(), "unexpected end of stream");
    assert_eq!(pull.fail(&end), None);
}

#[test]
fn retry_budget_counts_retriable_failures() {
    let mut budget = RetryBudget::new(Some(2));
    assert!(budget.has_remaining());
    assert_eq!(budget.check_retry(false), None);
    assert_eq!(budget.check_retry(true), Some(0));
    assert_eq!(budget.check_retry(true), Some(1));
    assert_eq!(budget.check_retry(true), None);
    assert!(!budget.has_remaining());
    let mut unlimited = RetryBudget::new(None);
    for _ in 0..100 {
        assert!(unlimited.check_retry(true).is_some());
    }
}

#[test]
fn modacks_cover_every_entry_once() {
    let sub = "test-subscription".to_string();
    let batch: Vec<(String, i32)> = (0..2501).map(|i| (format!("mass-ack{}", i), (i % 7) as i32)).collect();
    let requests = modack_requests(&sub, batch.clone());
    assert_eq!(requests.len(), 7);
    let total: usize = requests.iter().map(|r| r.ack_ids.len()).sum();
    assert_eq!(total, batch.len());
    let mut all: Vec<String> = requests.iter().flat_map(|r| r.ack_ids.clone()).collect();
    all.sort();
    let mut expected: Vec<String> = batch.into_iter().map(|(id, _)| id).collect();
    expected.sort();
    assert_eq!(all, expected);
}

#[test]
fn modack_handling() {
    let sub = "test-subscription".to_string();
    let requests = modack_requests(&sub, vec![("ack-id1".to_string(), 1)]);
    assert_eq!(requests.len(), 1);
    assert_eq!(requests[0].subscription, "test-subscription");
    assert_eq!(requests[0].ack_ids, vec!["ack-id1".to_string()]);
    assert_eq!(requests[0].ack_deadline_seconds, 1);

    let requests = modack_requests(
        &sub,
        vec![
            ("ack-id2".to_string(), 2),
            ("ack-id3".to_string(), 5),
            ("ack-id4".to_string(), 2),
            ("ack-id5".to_string(), 5),
            ("ack-id6".to_string(), 1),
        ],
    );
    let got: Vec<(Vec<String>, i32)> =
        requests.iter().map(|r| (r.ack_ids.clone(), r.ack_deadline_seconds)).collect();
    assert_eq!(
        got,
        vec![
            (vec!["ack-id6".to_string()], 1),
            (vec!["ack-id2".to_string(), "ack-id4".to_string()], 2),
            (vec!["ack-id3".to_string(), "ack-id5".to_string()], 5),
        ]
    );

    let requests = modack_requests(
        &sub,
        vec![("ack-id7".to_string(), 1), ("ack-id8".to_string(), 1), ("ack-id9".to_string(), 1)],
    );
    assert_eq!(requests.len(), 1);
    assert_eq!(
        requests[0].ack_ids,
        vec!["ack-id7".to_string(), "ack-id8".to_string(), "ack-id9".to_string()]
    );

    // more than the batch limit arrives in batches of at most the limit
    let mass: Vec<(String, i32)> = (0..(MAX_ACK_BATCH_SIZE + 2)).map(|i| (format!("mass-ack{i}"), 1)).collect();
    let batches = ack_batches(mass);
    assert_eq!(batches.len(), 2);
    assert_eq!(batches[0].len(), 2500);
    assert_eq!(batches[1].len(), 2);
    let first = modack_requests(&sub, batches[0].clone());
    assert_eq!(first.len(), 1);
    assert_eq!(first[0].ack_ids.len(), 2500);
    assert_eq!(first[0].ack_ids[0], "mass-ack0");
    let second = modack_requests(&sub, batches[1].clone());
    assert_eq!(second[0].ack_ids, vec!["mass-ack2500".to_string(), "mass-ack2501".to_string()]);
}

#[test]
fn ack_batches_keep_order() {
    let ids: Vec<u32> = (0..5001).collect();
    let batches = ack_batches(ids.clone());
    assert_eq!(batches.iter().map(|b| b.len()).collect::<Vec<_>>(), vec![2500, 2500, 1]);
    assert_eq!(batches.concat(), ids);
    assert!(ack_batches(Vec::<u32>::new()).is_empty());
}

#[test]
fn pull_failures_share_one_operation() {
    let mut pull = PullRetry::new(RetryTwice);
    let e = PullRetry::<RetryTwice>::end_of_stream_error();
    assert_eq!(pull.fail(&e), Some(1));
    assert_eq!(pull.fail(&e), Some(2));
    assert_eq!(pull.fail(&e), None);
    let _ = pull.receive(vec![]);
    assert_eq!(pull.fail(&e), Some(1));
}

struct RetryTwice;
struct Countdown(u64);

impl RetryPolicy<(), Status> for RetryTwice {
    type RetryOp = Countdown;
    fn new_operation(&mut self) -> Countdown {
        Countdown(0)
    }
}

impl RetryOperation<(), Status> for Countdown {
    fn check_retry(&mut self, _: &(), _: &Status) -> Option<u64> {
        self.0 += 1;
        if self.0 <= 2 { Some(self.0) } else { None }
    }
}

#[test]
fn give_up_error_names_subscription() {
    let e = Status::aborted("unexpected end of stream".to_string());
    let e = subscription_error(e, "projects/p/subscriptions/s".to_string());
    assert_eq!(e.code(), Code::Aborted);
    assert_eq!(e.message(), "unexpected end of stream");
    assert_eq!(e.metadata_get("subscription"), Some("projects/p/subscriptions/s"));
    assert_eq!(e.metadata_get("other"), None);
}

#[test]
fn status_metadata_later_value_wins() {
    let mut e = Status::internal("boom".to_string());
    assert_eq!(e.metadata_entries().len(), 0);
    e.insert_metadata("k".to_string(), "a".to_string());
    e.insert_metadata("j".to_string(), "b".to_string());
    e.insert_metadata("k".to_string(), "c".to_string());
    assert_eq!(e.metadata_get("k"), Some("c"));
    assert_eq!(e.metadata_get("j"), Some("b"));
    assert_eq!(e.code(), Code::Internal);
    assert_eq!(e.message(), "boom");
}

fn told_ok(r: &Result<(), AcknowledgeError>) -> bool {
    r.is_ok()
}

fn told_error(r: &Result<(), AcknowledgeError>, code: Code, message: &str) -> bool {
    match r {
        Err(AcknowledgeError(AckErr::Request(s))) => s.code() == code && s.message() == message,
        _ => false,
    }
}

#[test]
fn ack_handling() {
    let sub = "test-subscription".to_string();

    // simple single ack case
    let requests = ack_requests(&sub, vec!["ack-id1".to_string()]);
    assert_eq!(
        requests,
        vec![AcknowledgeRequest {
            subscription: "test-subscription".into(),
            ack_ids: vec!["ack-id1".into()],
        }]
    );
    // and that the ack token got its response
    let told = token_results(&vec![1], &vec![Ok(())]);
    assert!(told_ok(&told[0][0]));

    // multiple acks queued before the handler runs again go in a single request
    let requests = ack_requests(&sub, vec!["ack-id2".into(), "ack-id3".into(), "ack-id4".into()]);
    assert_eq!(
        requests,
        vec![AcknowledgeRequest {
            subscription: "test-subscription".into(),
            ack_ids: vec!["ack-id2".into(), "ack-id3".into(), "ack-id4".into()],
        }]
    );
    let told = token_results(&vec![3], &vec![Ok(())]);
    assert!(told[0].iter().all(told_ok));

    // this time the server answers with an error, which each token gets back
    let requests = ack_requests(&sub, vec!["ack-id5".into(), "ack-id6".into(), "ack-id7".into()]);
    assert_eq!(
        requests,
        vec![AcknowledgeRequest {
            subscription: "test-subscription".into(),
            ack_ids: vec!["ack-id5".into(), "ack-id6".into(), "ack-id7".into()],
        }]
    );
    let told = token_results(&vec![3], &vec![Err(Status::aborted("injected-error".to_string()))]);
    assert_eq!(told[0].len(), 3);
    assert!(told[0].iter().all(|r| told_error(r, Code::Aborted, "injected-error")));

    // more than the batch limit goes in several requests
    let ids = (0..(MAX_ACK_BATCH_SIZE + 2)).map(|i| format!("mass-ack{i}")).collect::<Vec<_>>();
    let server_acks = ack_requests(&sub, ids);
    assert_eq!(server_acks.len(), 2);
    assert_eq!(
        server_acks[0].ack_ids,
        (0..MAX_ACK_BATCH_SIZE).map(|i| format!("mass-ack{i}")).collect::<Vec<_>>()
    );
    assert_eq!(MAX_ACK_BATCH_SIZE, 2500);
    assert_eq!(server_acks[1].ack_ids, vec!["mass-ack2500".to_owned(), "mass-ack2501".to_owned()]);
    let told = token_results(&vec![2500, 2], &vec![Ok(()), Ok(())]);
    assert_eq!(told[0].len(), 2500);
    assert!(told.iter().flatten().all(told_ok));

    // what is still queued when the senders are gone is sent too
    assert_eq!(
        ack_requests(&sub, vec!["ack-id99".into()]),
        vec![AcknowledgeRequest {
            subscription: "test-subscription".into(),
            ack_ids: vec!["ack-id99".into()]
        }]
    );
    assert!(ack_requests(&sub, vec![]).is_empty());
}

#[test]
fn nack_handling() {
    let sub = "test-subscription".to_string();

    let requests = nack_requests(&sub, vec!["ack-id1".to_string()]);
    assert_eq!(
        requests,
        vec![ModifyAckDeadlineRequest {
            subscription: "test-subscription".into(),
            ack_ids: vec!["ack-id1".into()],
            ack_deadline_seconds: 0,
        }]
    );
    let told = token_results(&vec![1], &vec![Ok(())]);
    assert!(told_ok(&told[0][0]));

    let requests = nack_requests(&sub, vec!["ack-id2".into(), "ack-id3".into(), "ack-id4".into()]);
    assert_eq!(
        requests,
        vec![ModifyAckDeadlineRequest {
            subscription: "test-subscription".into(),
            ack_ids: vec!["ack-id2".into(), "ack-id3".into(), "ack-id4".into()],
            ack_deadline_seconds: 0,
        }]
    );

    let requests = nack_requests(&sub, vec!["ack-id5".into(), "ack-id6".into(), "ack-id7".into()]);
    assert_eq!(requests[0].ack_ids, vec!["ack-id5".to_string(), "ack-id6".into(), "ack-id7".into()]);
    let told = token_results(&vec![3], &vec![Err(Status::aborted("injected-error".to_string()))]);
    assert!(told[0].iter().all(|r| told_error(r, Code::Aborted, "injected-error")));

    let ids = (0..(MAX_ACK_BATCH_SIZE + 2)).map(|i| format!("mass-ack{i}")).collect::<Vec<_>>();
    let server_acks = nack_requests(&sub, ids);
    assert_eq!(server_acks.len(), 2);
    assert_eq!(
        server_acks[0].ack_ids,
        (0..MAX_ACK_BATCH_SIZE).map(|i| format!("mass-ack{i}")).collect::<Vec<_>>()
    );
    assert_eq!(server_acks[1].ack_ids, vec!["mass-ack2500".to_owned(), "mass-ack2501".to_owned()]);
    assert!(server_acks.iter().all(|r| r.ack_deadline_seconds == 0));

    assert_eq!(
        nack_requests(&sub, vec!["ack-id99".into()]),
        vec![ModifyAckDeadlineRequest {
            subscription: "test-subscription".into(),
            ack_ids: vec!["ack-id99".into()],
            ack_deadline_seconds: 0,
        }]
    );
}

#[test]
fn modacks_queued_beyond_a_batch() {
    let sub = "test-subscription".to_string();
    let mut queued: Vec<(String, i32)> = (0..MAX_ACK_BATCH_SIZE).map(|i| (format!("m{i}"), (i % 2) as i32 + 1)).collect();
    queued.push(("late".to_string(), 5));
    let groups = modack_handler_requests(&sub, queued);
    assert_eq!(groups.len(), 2);
    assert_eq!(groups[0].len(), 2);
    assert_eq!(groups[0][0].ack_deadline_seconds, 1);
    assert_eq!(groups[0][0].ack_ids.len(), 1250);
    assert_eq!(groups[0][0].ack_ids[0], "m0");
    assert_eq!(groups[0][1].ack_deadline_seconds, 2);
    assert_eq!(groups[0][1].ack_ids[0], "m1");
    assert_eq!(
        groups[1],
        vec![ModifyAckDeadlineRequest { subscription: sub.clone(), ack_ids: vec!["late".into()], ack_deadline_seconds: 5 }]
    );
}

#[test]
fn each_token_is_told_its_requests_result() {
    let told = token_results(&vec![2, 0, 1], &vec![Ok(()), Ok(()), Err(Status::internal("boom".to_string()))]);
    assert_eq!(told.len(), 3);
    assert!(told[0].iter().all(told_ok) && told[0].len() == 2);
    assert!(told[1].is_empty());
    assert!(told_error(&told[2][0], Code::Internal, "boom"));
}
