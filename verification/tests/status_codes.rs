use ya_gcp::grpc::{code_from_i32, Code, Status, StatusCodeSet};
use ya_gcp::retry_policy::RetryPredicate;

const ALL: [Code; 17] = [
    Code::Okay,
    Code::Cancelled,
    Code::Unknown,
    Code::InvalidArgument,
    Code::DeadlineExceeded,
    Code::NotFound,
    Code::AlreadyExists,
    Code::PermissionDenied,
    Code::ResourceExhausted,
    Code::FailedPrecondition,
    Code::Aborted,
    Code::OutOfRange,
    Code::Unimplemented,
    Code::Internal,
    Code::Unavailable,
    Code::DataLoss,
    Code::Unauthenticated,
];

#[test]
fn code_numbers_round_trip() {
    for (n, code) in ALL.iter().enumerate() {
        assert_eq!(code.as_i32(), n as i32);
        assert_eq!(Code::from_i32(n as i32), *code);
        assert_eq!(code_from_i32(n as i32), Some(*code));
    }
    assert_eq!(Code::from_i32(17), Code::Unknown);
    assert_eq!(Code::from_i32(-1), Code::Unknown);
    assert_eq!(code_from_i32(17), None);
    assert_eq!(code_from_i32(-1), None);
}

#[test]
fn empty_set_contains_nothing() {
    let s = StatusCodeSet::empty();
    for code in ALL {
        assert!(!s.contains(code));
    }
    assert!(s.iter().is_empty());
    assert!(StatusCodeSet::default().iter().is_empty());
}

#[test]
fn set_operations() {
    let a = StatusCodeSet::new(&[Code::Aborted, Code::Internal, Code::Okay]);
    let b = StatusCodeSet::from_codes(vec![Code::Internal, Code::Unavailable]);
    assert_eq!(a.clone().bitor(b.clone()).iter(), vec![Code::Okay, Code::Aborted, Code::Internal, Code::Unavailable]);
    assert_eq!(a.clone().bitand(b.clone()).iter(), vec![Code::Internal]);
    assert_eq!(a.clone().bitxor(b.clone()).iter(), vec![Code::Okay, Code::Aborted, Code::Unavailable]);
    let mut c = a.clone();
    c.bitor_assign(StatusCodeSet::from_code(Code::DataLoss));
    assert!(c.contains(Code::DataLoss));
    assert!(c.contains(Code::Aborted));
    c.bitand_assign(StatusCodeSet::from_code(Code::DataLoss));
    assert_eq!(c.iter(), vec![Code::DataLoss]);
    c.bitxor_assign(StatusCodeSet::from_code(Code::DataLoss));
    assert!(c.iter().is_empty());
}

#[test]
fn iter_is_in_code_order() {
    let s = StatusCodeSet::new(&[Code::Unauthenticated, Code::Cancelled, Code::Unknown, Code::Cancelled]);
    assert_eq!(s.iter(), vec![Code::Cancelled, Code::Unknown, Code::Unauthenticated]);
}

#[test]
fn deserialize_from_integers() {
    let s = StatusCodeSet::from_i32_codes(&[14, 4, 10]).unwrap();
    assert_eq!(s.iter(), vec![Code::DeadlineExceeded, Code::Aborted, Code::Unavailable]);
    assert_eq!(StatusCodeSet::from_i32_codes(&[1, 99, -3]).unwrap_err(), 99);
    assert!(StatusCodeSet::from_i32_codes(&[]).unwrap().iter().is_empty());
}

#[test]
fn set_as_retry_predicate() {
    let s = StatusCodeSet::new(&[Code::Unavailable]);
    assert!(s.is_retriable(&Status::new(Code::Unavailable, String::new())));
    assert!(!s.is_retriable(&Status::new(Code::Internal, String::new())));
}

#[test]
fn status_constructors() {
    let s = Status::invalid_argument("bad".to_string());
    assert_eq!(s.code(), Code::InvalidArgument);
    assert_eq!(s.message(), "bad");
    assert_eq!(Status::internal("x".to_string()).code(), Code::Internal);
    assert_eq!(Status::aborted("y".to_string()).code(), Code::Aborted);
}

#[test]
fn collecting_iter_gives_set_back() {
    let s = StatusCodeSet::new(&[Code::DataLoss, Code::Okay, Code::Aborted]);
    assert_eq!(StatusCodeSet::from_codes(s.iter()), s);
    assert_eq!(StatusCodeSet::from_codes(StatusCodeSet::empty().iter()), StatusCodeSet::empty());
}

#[test]
fn set_operators() {
    let a = StatusCodeSet::new(&[Code::Aborted, Code::Unavailable]);
    let b = StatusCodeSet::new(&[Code::Unavailable, Code::Internal]);
    let union = a | b;
    assert!(union.contains(Code::Aborted) && union.contains(Code::Unavailable) && union.contains(Code::Internal));
    let both = a & b;
    assert!(both.contains(Code::Unavailable) && !both.contains(Code::Aborted) && !both.contains(Code::Internal));
    let either = a ^ b;
    assert!(either.contains(Code::Aborted) && either.contains(Code::Internal) && !either.contains(Code::Unavailable));
    assert!(union == StatusCodeSet::new(&[Code::Internal, Code::Aborted, Code::Unavailable]));
}
