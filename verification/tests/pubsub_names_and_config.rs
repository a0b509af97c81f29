use ya_gcp::emulator::ConnectAttempts;
use ya_gcp::grpc::{Code, Status};
use ya_gcp::pubsub::emulator::Emulator;
use ya_gcp::pubsub::{ProjectSubscriptionName, ProjectTopicName, PubSubConfig, PubSubRetryCheck};
use ya_gcp::retry_policy::RetryPredicate;

#[test]
fn config_default() {
    assert_eq!(
        PubSubConfig::default().endpoint,
        "https://pubsub.googleapis.com:443/"
    );
}

#[test]
fn config_new_matches_default_and_setters() {
    let c = PubSubConfig::new();
    assert_eq!(c.endpoint, "https://pubsub.googleapis.com:443/");
    assert_eq!(
        c.auth_scopes,
        vec![
            "https://www.googleapis.com/auth/cloud-platform".to_string(),
            "https://www.googleapis.com/auth/pubsub".to_string()
        ]
    );
    assert_eq!(c.connection_pool_size, 4);
    let c = c
        .endpoint("http://localhost:8085/".to_string())
        .connection_pool_size(2)
        .auth_scopes(vec![]);
    assert_eq!(c.endpoint, "http://localhost:8085/");
    assert_eq!(c.connection_pool_size, 2);
    assert!(c.auth_scopes.is_empty());
}

#[test]
fn subscription_and_topic_names() {
    let s = ProjectSubscriptionName::new("my-project", "my-sub");
    assert_eq!(s.as_str(), "projects/my-project/subscriptions/my-sub");
    assert_eq!(s.to_string(), "projects/my-project/subscriptions/my-sub");
    assert_eq!(String::from(s), "projects/my-project/subscriptions/my-sub");
    let t = ProjectTopicName::new("p", "t");
    assert_eq!(t.as_str(), "projects/p/topics/t");
    assert_eq!(String::from(t), "projects/p/topics/t");
}

#[test]
fn pubsub_retry_check_codes() {
    let check = PubSubRetryCheck::new();
    for code in [
        Code::DeadlineExceeded,
        Code::ResourceExhausted,
        Code::Aborted,
        Code::Internal,
        Code::Cancelled,
        Code::Unknown,
        Code::Unavailable,
    ] {
        assert!(check.is_retriable(&Status::new(code, "x".to_string())), "{:?}", code);
    }
    for code in [Code::Okay, Code::InvalidArgument, Code::NotFound, Code::PermissionDenied, Code::DataLoss] {
        assert!(!check.is_retriable(&Status::new(code, "x".to_string())), "{:?}", code);
    }
}

#[test]
fn pubsub_retry_check_shutdown_message() {
    let check = PubSubRetryCheck::new();
    let shutdown = Status::new(
        Code::Unavailable,
        "the subscription stream was closed: Server shutdownNow invoked".to_string(),
    );
    assert!(!check.check(&shutdown));
    let other = Status::new(Code::Unavailable, "connection reset".to_string());
    assert!(check.check(&other));
}

#[test]
fn pubsub_emulator_builder() {
    let e = Emulator::new();
    assert_eq!(e.retry_limit(), 50);
    let e = e.connection_retry_limit(7);
    assert_eq!(e.retry_limit(), 7);
    let e = e.project("proj".to_string());
    let (project, limit) = e.into_settings();
    assert_eq!(project, "proj");
    assert_eq!(limit, 7);
}

#[test]
fn emulator_connection_checks() {
    let mut a = ConnectAttempts::new(2);
    assert!(a.check_again());
    a.failed();
    assert!(a.check_again());
    assert!(!a.gave_up());
    a.failed();
    assert!(!a.check_again());
    assert!(a.gave_up());
    // with no check allowed, the emulator is taken as available
    let none = ConnectAttempts::new(0);
    assert!(!none.check_again());
    assert!(!none.gave_up());
}

#[test]
fn status_duplicate_keeps_everything() {
    let mut s = Status::new(Code::NotFound, "gone".to_string());
    s.insert_metadata("k".to_string(), "v".to_string());
    let d = s.duplicate();
    assert_eq!(d.code(), Code::NotFound);
    assert_eq!(d.message(), "gone");
    assert_eq!(d.metadata_get("k"), Some("v"));
    assert_eq!(d.metadata_entries().len(), 1);
}
