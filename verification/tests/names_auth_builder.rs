use ya_gcp::auth::{auth_header_value, bearer_header_text, AuthGrpcService};
use ya_gcp::builder::{
    auth_source, is_external_account_json, AuthFlow, AuthSource, ClientBuilderConfig,
    CreateBuilderError, ServiceAccountAuth,
};
use ya_gcp::emulator::{connect_address, endpoint, host_port, kill_pattern};
use ya_gcp::generated::google_type::Expr;
use ya_gcp::generators::Mode;
use ya_gcp::storage::{
    bucket, names_to_object, object_download_request, object_download_response, object_get_request,
    object_get_response, object_insert_request, object_insert_response,
    object_insert_with_metadata_request, ObjectMetadata, BucketNameError, InvalidNameError, ObjectRequestError,
};

#[test]
fn valid_bucket_names() {
    assert_eq!(bucket("my-bucket.v2_x").unwrap(), "my-bucket.v2_x");
    assert_eq!(bucket("abc").unwrap(), "abc");
    let longest = std::iter::repeat('a').take(63).collect::<String>();
    assert_eq!(bucket(&longest).unwrap(), longest);
}

#[test]
fn bucket_name_length() {
    match bucket("ab") {
        Err(BucketNameError::InvalidCharacterCount { len, min, max }) => {
            assert_eq!((len, min, max), (2, 3, 63))
        }
        other => panic!("unexpected {:?}", other),
    }
    let too_long = std::iter::repeat('a').take(64).collect::<String>();
    match bucket(&too_long) {
        Err(BucketNameError::InvalidCharacterCount { len, .. }) => assert_eq!(len, 64),
        other => panic!("unexpected {:?}", other),
    }
    // characters are counted, not bytes
    match bucket("éé") {
        Err(BucketNameError::InvalidCharacterCount { len, .. }) => assert_eq!(len, 2),
        other => panic!("unexpected {:?}", other),
    }
}

#[test]
fn bucket_name_characters() {
    match bucket("abCd") {
        Err(BucketNameError::InvalidCharacter(i, c)) => assert_eq!((i, c), (2, 'C')),
        other => panic!("unexpected {:?}", other),
    }
    match bucket("-abc") {
        Err(BucketNameError::InvalidCharacter(i, c)) => assert_eq!((i, c), (0, '-')),
        other => panic!("unexpected {:?}", other),
    }
    match bucket("abc.") {
        Err(BucketNameError::InvalidCharacter(i, c)) => assert_eq!((i, c), (3, '.')),
        other => panic!("unexpected {:?}", other),
    }
    match bucket("ab c") {
        Err(BucketNameError::InvalidCharacter(i, c)) => assert_eq!((i, c), (2, ' ')),
        other => panic!("unexpected {:?}", other),
    }
}

#[test]
fn bucket_name_google_words() {
    match bucket("goog-bucket") {
        Err(BucketNameError::InvalidPrefix(p)) => assert_eq!(p, "goog"),
        other => panic!("unexpected {:?}", other),
    }
    match bucket("my-google-bucket") {
        Err(BucketNameError::InvalidSequence(s)) => assert_eq!(s, "google"),
        other => panic!("unexpected {:?}", other),
    }
    match bucket("my-g00gle-bucket") {
        Err(BucketNameError::InvalidSequence(s)) => assert_eq!(s, "google"),
        other => panic!("unexpected {:?}", other),
    }
}

#[test]
fn object_names() {
    let id = names_to_object("my-bucket", "dir/object.txt").unwrap();
    assert_eq!(id.bucket, "my-bucket");
    assert_eq!(id.object, "dir/object.txt");
    match names_to_object("Bad", "x") {
        Err(InvalidNameError::Bucket(_, name)) => assert_eq!(name, "Bad"),
        other => panic!("unexpected {:?}", other),
    }
    for bad in ["", ".", "...", "a\nb", "what?", ".well-known/acme-challenge/x"] {
        match names_to_object("my-bucket", bad) {
            Err(InvalidNameError::Object(_, name)) => assert_eq!(name, bad),
            other => panic!("unexpected {:?} for {:?}", other, bad),
        }
    }
    let longest = std::iter::repeat('a').take(1024).collect::<String>();
    assert!(names_to_object("my-bucket", &longest).is_ok());
    let too_long = std::iter::repeat('a').take(1025).collect::<String>();
    assert!(names_to_object("my-bucket", &too_long).is_err());
}

#[test]
fn bearer_header() {
    assert_eq!(bearer_header_text("this is my token"), "Bearer this is my token");
    let v = auth_header_value("this is my token").unwrap();
    assert_eq!(v.as_bytes(), &b"Bearer this is my token".to_vec());
    assert_eq!(v.value().as_bytes(), b"Bearer this is my token");
    let v = auth_header_value("é").unwrap();
    assert_eq!(v.as_bytes(), &"Bearer é".as_bytes().to_vec());
    assert!(auth_header_value("\u{0000}").is_err());
    assert!(auth_header_value("tab\tis fine").is_ok());
    assert!(auth_header_value("del\u{7f}").is_err());
}

#[test]
fn auth_service_holds_its_parts() {
    let mut s: AuthGrpcService<u32, String> =
        AuthGrpcService::new(7, Some("token source".to_string()), vec!["scope".to_string()]);
    assert_eq!(*s.inner(), 7);
    *s.inner_mut() = 8;
    assert_eq!(*s.inner(), 8);
    assert_eq!(s.auth().as_deref(), Some("token source"));
    assert_eq!(s.scopes(), &vec!["scope".to_string()]);
}

#[test]
fn auth_flow_defaults() {
    assert!(matches!(
        ClientBuilderConfig::default().auth_flow,
        AuthFlow::ServiceAccount(ServiceAccountAuth::EnvVar)
    ));
    assert!(matches!(AuthFlow::default(), AuthFlow::ServiceAccount(ServiceAccountAuth::EnvVar)));
    assert!(matches!(ServiceAccountAuth::default(), ServiceAccountAuth::EnvVar));
    let c = ClientBuilderConfig::new().auth_flow(AuthFlow::NoAuth);
    assert!(matches!(c.auth_flow, AuthFlow::NoAuth));
}

#[test]
fn auth_source_decisions() {
    assert!(matches!(auth_source(AuthFlow::NoAuth, None), Ok(AuthSource::NoAuth)));
    match auth_source(AuthFlow::ServiceAccount(ServiceAccountAuth::EnvVar), Some("/key.json".to_string())) {
        Ok(AuthSource::ServiceAccountKey(p)) => assert_eq!(p, "/key.json"),
        other => panic!("unexpected {:?}", other),
    }
    assert!(matches!(
        auth_source(AuthFlow::ServiceAccount(ServiceAccountAuth::EnvVar), None),
        Err(CreateBuilderError::CredentialsVarMissing)
    ));
    match auth_source(AuthFlow::ServiceAccount(ServiceAccountAuth::Path("/p".to_string())), None) {
        Ok(AuthSource::ServiceAccountKey(p)) => assert_eq!(p, "/p"),
        other => panic!("unexpected {:?}", other),
    }
    assert!(matches!(
        auth_source(AuthFlow::ServiceAccount(ServiceAccountAuth::ApplicationDefault), None),
        Ok(AuthSource::ApplicationDefault)
    ));
    match auth_source(
        AuthFlow::ServiceAccountImpersonation { user: "/u".to_string(), email: "e@x".to_string() },
        None,
    ) {
        Ok(AuthSource::Impersonation { user, email }) => assert_eq!((user.as_str(), email.as_str()), ("/u", "e@x")),
        other => panic!("unexpected {:?}", other),
    }
    match auth_source(AuthFlow::UserAccount("/s".to_string()), None) {
        Ok(AuthSource::UserAccount(p)) => assert_eq!(p, "/s"),
        other => panic!("unexpected {:?}", other),
    }
}

#[test]
fn external_account_detection() {
    assert!(is_external_account_json(r#"{"type": "external_account", "audience": "x"}"#));
    assert!(!is_external_account_json(r#"{"type": "service_account"}"#));
    assert!(!is_external_account_json(r#"{"type": 5}"#));
    assert!(!is_external_account_json(r#"{"kind": "external_account"}"#));
    assert!(!is_external_account_json("not json"));
}

#[test]
fn generator_modes() {
    let m: Mode = "client".parse().unwrap();
    assert!(m.should_build_client());
    assert!(!m.should_build_server());
    let m = Mode::parse("server").unwrap();
    assert!(m.should_build_server());
    assert!(!m.should_build_client());
    assert_eq!(Mode::parse("both"), Err("possible values are 'client' or 'server'"));
}

#[test]
fn emulator_addresses() {
    assert_eq!(endpoint("8085"), "http://localhost:8085/v1");
    assert_eq!(connect_address("8085"), "http://localhost:8085");
    assert_eq!(host_port("8085"), "localhost:8085");
    assert_eq!(kill_pattern("pubsub", "8085"), ".*pubsub.*--port=8085.*");
}

#[test]
fn expr_fields() {
    let e = Expr { expression: "a == b".to_string(), ..Expr::default() };
    assert_eq!(e.expression, "a == b");
    assert!(e.title.is_empty());
}

#[test]
fn object_requests() {
    let q = object_download_request("my-bucket", "dir/object.txt").unwrap();
    assert_eq!(q.method, "GET");
    assert!(q.uri.starts_with("https://storage.googleapis.com/storage/v1/b/my-bucket/o/dir%2Fobject.txt"));
    assert!(q.uri.contains("alt=media"));
    assert!(q.body.is_empty());
    let q = object_get_request("my-bucket", "obj").unwrap();
    assert_eq!(q.method, "GET");
    assert!(!q.uri.contains("alt=media"));
    let q = object_insert_request("my-bucket", "obj", b"data".to_vec()).unwrap();
    assert_eq!(q.method, "POST");
    assert_eq!(q.body, b"data".to_vec());
    assert!(q.uri.contains("name=obj"));
    match object_download_request("Bad", "obj") {
        Err(ObjectRequestError::InvalidName(InvalidNameError::Bucket(_, n))) => assert_eq!(n, "Bad"),
        other => panic!("unexpected {:?}", other),
    }
    match object_insert_request("my-bucket", "", vec![]) {
        Err(ObjectRequestError::InvalidName(InvalidNameError::Object(_, n))) => assert_eq!(n, ""),
        other => panic!("unexpected {:?}", other),
    }
}

#[test]
fn object_insert_with_metadata() {
    let metadata = ObjectMetadata { name: Some("my-object".to_string()), rest: tame_gcs::objects::Metadata::default() };
    let q = object_insert_with_metadata_request("my-bucket", metadata, b"my data".to_vec()).unwrap();
    assert_eq!(q.method, "POST");
    assert_eq!(q.uri, "https://storage.googleapis.com/upload/storage/v1/b/my-bucket/o?uploadType=multipart&prettyPrint=false");
    assert!(q.body.ends_with(b"my data\n--tame_gcs--"));
    assert!(q.body.windows(11).any(|w| w == b"\"my-object\""));
    let unnamed = ObjectMetadata { name: None, rest: tame_gcs::objects::Metadata::default() };
    assert!(matches!(
        object_insert_with_metadata_request("my-bucket", unnamed, vec![]),
        Err(ObjectRequestError::InvalidRequest(_))
    ));
    let badly_named = ObjectMetadata { name: Some("a#b".to_string()), rest: tame_gcs::objects::Metadata::default() };
    assert!(matches!(
        object_insert_with_metadata_request("my-bucket", badly_named, vec![]),
        Err(ObjectRequestError::InvalidRequest(_))
    ));
    let metadata = ObjectMetadata { name: Some("my-object".to_string()), rest: tame_gcs::objects::Metadata::default() };
    match object_insert_with_metadata_request("goog-x", metadata, vec![]) {
        Err(ObjectRequestError::InvalidName(InvalidNameError::Bucket(_, n))) => assert_eq!(n, "goog-x"),
        other => panic!("unexpected {:?}", other.map(|q| q.uri)),
    }
}

#[test]
fn object_responses() {
    assert_eq!(object_download_response(200, None, b"abc".to_vec()).unwrap(), b"abc".to_vec());
    assert!(matches!(
        object_download_response(404, Some(b"text/plain".to_vec()), b"missing".to_vec()),
        Err(ObjectRequestError::Failure(_))
    ));
    let m = object_get_response(200, Some(b"application/json".to_vec()), br#"{"name": "obj", "bucket": "b"}"#.to_vec()).unwrap();
    assert_eq!(m.name.as_deref(), Some("obj"));
    assert!(object_insert_response(500, None, vec![]).is_err());
    assert!(matches!(
        object_get_response(200, None, b"not json".to_vec()),
        Err(ObjectRequestError::Failure(_))
    ));
    let m = object_insert_response(200, None, br#"{"name": "stored", "size": "3"}"#.to_vec()).unwrap();
    assert_eq!(m.name.as_deref(), Some("stored"));
    assert_eq!(m.size, Some(3));
    assert!(matches!(
        object_insert_response(200, None, b"[]".to_vec()),
        Err(ObjectRequestError::Failure(_))
    ));
}
