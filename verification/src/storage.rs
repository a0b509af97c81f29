//! The naming rules of Google Cloud Storage: which bucket and object names a request may carry.
use vstd::prelude::*;

use crate::text::{contains_str, seq_has_infix, starts_with_str, str_to_chars, utf8_len};

verus! {

#[verifier::external_type_specification]
#[verifier::external_body]
pub struct ExTameGcsError(tame_gcs::Error);

#[verifier::external_type_specification]
#[verifier::external_body]
pub struct ExObjectMetadata(tame_gcs::objects::Metadata);

/// An error indicating that a given bucket name was invalid
#[derive(Debug)]
pub enum BucketNameError {
    /// The name was too long or too short.
    InvalidCharacterCount {
        /// The number of characters in the name.
        len: usize,
        /// The number of characters must be at least this.
        min: usize,
        /// The number of characters must be at most this.
        max: usize,
    },
    /// The name contained an invalid character.
    InvalidCharacter(usize, char),
    /// The name started with an invalid prefix.
    InvalidPrefix(&'static str),
    /// The name contained an invalid substring.
    InvalidSequence(&'static str),
}

/// An error indicating that a given object name was invalid
#[derive(Debug)]
pub enum InvalidNameError {
    /// The given name did not have a valid bucket
    Bucket(BucketNameError, String),
    /// The given name did not have a valid object
    Object(tame_gcs::Error, String),
}

/// A validated pair of a bucket name and an object name.
#[derive(Debug, Clone)]
pub struct ObjectId {
    /// The bucket holding the object.
    pub bucket: String,
    /// The object's name within the bucket.
    pub object: String,
}

/// Whether a character may stand at position `i` of a bucket name whose last position is
/// `last`: lowercase letters and digits anywhere; `-`, `_` and `.` only inside the name.
pub open spec fn bucket_char_allowed(c: char, i: int, last: int) -> bool {
    ||| ('a' <= c && c <= 'z')
    ||| ('0' <= c && c <= '9')
    ||| ((c == '-' || c == '_' || c == '.') && i != 0 && i != last)
}

/// Whether every character of a bucket name before position `k` is allowed.
pub open spec fn bucket_chars_allowed_before(name: Seq<char>, k: int) -> bool {
    forall|j: int| 0 <= j < k ==> #[trigger] bucket_char_allowed(name[j], j, name.len() - 1)
}

/// Whether a bucket name has between 3 and 63 characters.
pub open spec fn bucket_len_ok(name: Seq<char>) -> bool {
    3 <= name.len() <= 63
}

/// Whether a name begins with the given prefix.
pub open spec fn has_prefix(name: Seq<char>, prefix: Seq<char>) -> bool {
    prefix.len() <= name.len() && name.subrange(0, prefix.len() as int) == prefix
}

/// Whether a string is a valid bucket name: 3 to 63 characters, each allowed, no `goog`
/// prefix, and neither `google` nor `g00gle` in it.
pub open spec fn bucket_name_valid(name: Seq<char>) -> bool {
    &&& bucket_len_ok(name)
    &&& bucket_chars_allowed_before(name, name.len() as int)
    &&& !has_prefix(name, seq!['g', 'o', 'o', 'g'])
    &&& !seq_has_infix(name, seq!['g', 'o', 'o', 'g', 'l', 'e'])
    &&& !seq_has_infix(name, seq!['g', '0', '0', 'g', 'l', 'e'])
}

/// The bucket naming rules, written out: a name is valid exactly when it has 3 to 63
/// characters, every character is a lowercase letter or a digit, or one of `-`, `_`, `.`
/// strictly inside the name (neither first nor last), it does not begin with `goog`, and
/// neither `google` nor `g00gle` occurs in it. In particular digits are allowed at every
/// position, the first and the last included.
pub proof fn lemma_bucket_rules(name: Seq<char>)
    ensures
        bucket_name_valid(name) <==> {
            &&& 3 <= name.len() <= 63
            &&& forall|i: int|
                0 <= i < name.len() ==> {
                    let c = #[trigger] name[i];
                    ||| ('a' <= c && c <= 'z')
                    ||| ('0' <= c && c <= '9')
                    ||| ((c == '-' || c == '_' || c == '.') && 0 < i < name.len() - 1)
                }
            &&& !(name.len() >= 4 && name[0] == 'g' && name[1] == 'o' && name[2] == 'o' && name[3] == 'g')
            &&& !seq_has_infix(name, seq!['g', 'o', 'o', 'g', 'l', 'e'])
            &&& !seq_has_infix(name, seq!['g', '0', '0', 'g', 'l', 'e'])
        },
{
    let goog = seq!['g', 'o', 'o', 'g'];
    if name.len() >= 4 {
        let p = name.subrange(0, 4);
        if name[0] == 'g' && name[1] == 'o' && name[2] == 'o' && name[3] == 'g' {
            assert(p =~= goog);
        }
        if p == goog {
            assert(p[0] == name[0] && p[1] == name[1] && p[2] == name[2] && p[3] == name[3]);
        }
    }
    if bucket_chars_allowed_before(name, name.len() as int) {
        assert forall|i: int| 0 <= i < name.len() implies {
            let c = #[trigger] name[i];
            ||| ('a' <= c && c <= 'z')
            ||| ('0' <= c && c <= '9')
            ||| ((c == '-' || c == '_' || c == '.') && 0 < i < name.len() - 1)
        } by {
            assert(bucket_char_allowed(name[i], i, name.len() - 1));
        }
    }
    if forall|i: int|
        0 <= i < name.len() ==> {
            let c = #[trigger] name[i];
            ||| ('a' <= c && c <= 'z')
            ||| ('0' <= c && c <= '9')
            ||| ((c == '-' || c == '_' || c == '.') && 0 < i < name.len() - 1)
        } {
        assert forall|j: int| 0 <= j < name.len() implies #[trigger] bucket_char_allowed(name[j], j, name.len() - 1) by {
            let c = name[j];
        }
    }
}

/// Whether a character is one that an object name may not hold: carriage return, line feed,
/// `#`, `[`, `]`, `*`, `?`, or a control character illegal in XML 1.0.
pub open spec fn object_char_forbidden(c: char) -> bool {
    ||| c == '\r' || c == '\n'
    ||| c == '#' || c == '[' || c == ']' || c == '*' || c == '?'
    ||| (0x7F <= (c as u32) <= 0x84)
    ||| (0x86 <= (c as u32) <= 0x9F)
}

/// Whether a string is a valid object name: 1 to 1024 bytes of UTF-8, neither `.` nor `...`,
/// no forbidden character, and not beginning with `.well-known/acme-challenge`.
pub open spec fn object_name_valid(name: Seq<char>) -> bool {
    &&& 1 <= utf8_len(name) <= 1024
    &&& name != seq!['.']
    &&& name != seq!['.', '.', '.']
    &&& forall|i: int| 0 <= i < name.len() ==> !object_char_forbidden(#[trigger] name[i])
    &&& !has_prefix(name, ".well-known/acme-challenge"@)
}

/// Checks an object name with tame-gcs's `ObjectName::try_from(&str)`, keeping only its
/// verdict. The contract claims that the check succeeds exactly on the names that satisfy
/// the rules written out in tame-gcs's `ObjectName::validate`; which error variant comes back
/// on a failure is left unsaid.
#[verifier::external_body]
fn check_object_name(name: &str) -> (r: Result<(), tame_gcs::Error>)
    ensures
        r is Ok <==> object_name_valid(name@),
{
    match tame_gcs::types::ObjectName::try_from(name) {
        Ok(_) => Ok(()),
        Err(e) => Err(e),
    }
}

fn is_allowed_bucket_char(c: char, i: usize, last: usize) -> (r: bool)
    ensures
        r == bucket_char_allowed(c, i as int, last as int),
{
    ('a' <= c && c <= 'z') || ('0' <= c && c <= '9') || ((c == '-' || c == '_' || c == '.') && i
        != 0 && i != last)
}

/// Validates a bucket name, accepting `.` where tame-gcs's own check would not, and returns
/// the name. The first rule broken decides the error: the number of characters, then the
/// first character not allowed at its place, then the `goog` prefix, then the `google` and
/// `g00gle` sequences.
pub fn bucket(name: &str) -> (r: Result<String, BucketNameError>)
    ensures
        !bucket_len_ok(name@) ==> r == Err::<String, BucketNameError>(
            BucketNameError::InvalidCharacterCount { len: name@.len() as usize, min: 3, max: 63 },
        ),
        forall|i: int|
            bucket_len_ok(name@) && 0 <= i < name@.len() && bucket_chars_allowed_before(name@, i)
                && !bucket_char_allowed(#[trigger] name@[i], i, name@.len() - 1) ==> r == Err::<
                String,
                BucketNameError,
            >(BucketNameError::InvalidCharacter(i as usize, name@[i])),
        bucket_len_ok(name@) && bucket_chars_allowed_before(name@, name@.len() as int) && has_prefix(
            name@,
            seq!['g', 'o', 'o', 'g'],
        ) ==> (r matches Err(BucketNameError::InvalidPrefix(p)) && p@ == seq!['g', 'o', 'o', 'g']),
        bucket_len_ok(name@) && bucket_chars_allowed_before(name@, name@.len() as int) && !has_prefix(
            name@,
            seq!['g', 'o', 'o', 'g'],
        ) && (seq_has_infix(name@, seq!['g', 'o', 'o', 'g', 'l', 'e']) || seq_has_infix(
            name@,
            seq!['g', '0', '0', 'g', 'l', 'e'],
        )) ==> (r matches Err(BucketNameError::InvalidSequence(p)) && p@ == seq![
            'g',
            'o',
            'o',
            'g',
            'l',
            'e',
        ]),
        r is Ok <==> bucket_name_valid(name@),
        r matches Ok(s) ==> s@ == name@,
{
    let chars = str_to_chars(name);
    let count = chars.len();
    if count < 3 || count > 63 {
        return Err(BucketNameError::InvalidCharacterCount { len: count, min: 3, max: 63 });
    }
    let last = count - 1;
    let mut i: usize = 0;
    while i < count
        invariant
            chars@ == name@,
            count == chars@.len(),
            3 <= count <= 63,
            last == count - 1,
            i <= count,
            bucket_chars_allowed_before(name@, i as int),
        decreases count - i,
    {
        let c = chars[i];
        if !is_allowed_bucket_char(c, i, last) {
            return Err(BucketNameError::InvalidCharacter(i, c));
        }
        i += 1;
    }
    let goog = "goog";
    let google = "google";
    let g00gle = "g00gle";
    proof {
        reveal_strlit("goog");
        reveal_strlit("google");
        reveal_strlit("g00gle");
        assert(goog@ =~= seq!['g', 'o', 'o', 'g']);
        assert(google@ =~= seq!['g', 'o', 'o', 'g', 'l', 'e']);
        assert(g00gle@ =~= seq!['g', '0', '0', 'g', 'l', 'e']);
    }
    if starts_with_str(name, goog) {
        return Err(BucketNameError::InvalidPrefix(goog));
    }
    if contains_str(name, google) || contains_str(name, g00gle) {
        return Err(BucketNameError::InvalidSequence(google));
    }
    Ok(name.to_string())
}

/// Validates a bucket name and an object name, and pairs them. A bad bucket name is reported
/// before a bad object name; each error carries the name it is about.
pub fn names_to_object(bucket_name: &str, object_name: &str) -> (r: Result<ObjectId, InvalidNameError>)
    ensures
        !bucket_name_valid(bucket_name@) ==> (r matches Err(InvalidNameError::Bucket(_, n)) && n@
            == bucket_name@),
        bucket_name_valid(bucket_name@) && !object_name_valid(object_name@) ==> (r matches Err(
            InvalidNameError::Object(_, n),
        ) && n@ == object_name@),
        r is Ok <==> bucket_name_valid(bucket_name@) && object_name_valid(object_name@),
        r matches Ok(id) ==> id.bucket@ == bucket_name@ && id.object@ == object_name@,
{
    let bucket = match bucket(bucket_name) {
        Ok(b) => b,
        Err(e) => {
            return Err(InvalidNameError::Bucket(e, bucket_name.to_string()));
        },
    };
    match check_object_name(object_name) {
        Ok(()) => {},
        Err(e) => {
            return Err(InvalidNameError::Object(e, object_name.to_string()));
        },
    }
    Ok(ObjectId { bucket, object: object_name.to_string() })
}

/// An HTTP request to Cloud Storage as plain values: method, URI, headers (name and value
/// bytes, in order) and body.
#[derive(Debug, Clone, PartialEq, Eq)]
pub struct ObjectRequest {
    /// The HTTP method.
    pub method: String,
    /// The full URI.
    pub uri: String,
    /// The headers, in order.
    pub headers: Vec<(String, Vec<u8>)>,
    /// The body.
    pub body: Vec<u8>,
}

/// The values a request holds.
pub type ObjectRequestView = (Seq<char>, Seq<char>, Seq<(Seq<char>, Seq<u8>)>, Seq<u8>);

/// The values of a request.
pub open spec fn request_view(q: ObjectRequest) -> ObjectRequestView {
    (q.method@, q.uri@, q.headers@.map_values(|h: (String, Vec<u8>)| (h.0@, h.1@)), q.body@)
}

/// The request that tame-gcs's `Object::download` forms for an object of a bucket (with the
/// standard authority and no options), `None` when it fails to form one: a function of the
/// two names alone.
pub uninterp spec fn tame_download_request(bucket: Seq<char>, object: Seq<char>) -> Option<ObjectRequestView>;

/// The request that tame-gcs's `Object::get` forms for an object's metadata, `None` when it
/// fails to form one.
pub uninterp spec fn tame_get_request(bucket: Seq<char>, object: Seq<char>) -> Option<ObjectRequestView>;

/// The request that tame-gcs's `Object::insert_simple` forms to store the given content as
/// an object, `None` when it fails to form one.
pub uninterp spec fn tame_insert_request(bucket: Seq<char>, object: Seq<char>, content: Seq<u8>) -> Option<ObjectRequestView>;

/// Forms an object download request with tame-gcs's `Object::download` on the names taken
/// unvalidated, and converts it to plain values. The contract names the result.
#[verifier::external_body]
fn tame_download(bucket: &str, object: &str) -> (r: Result<ObjectRequest, tame_gcs::Error>)
    ensures
        match r {
            Ok(q) => tame_download_request(bucket@, object@) == Some(request_view(q)),
            Err(_) => tame_download_request(bucket@, object@) is None,
        },
{
    let id = tame_gcs::types::ObjectId { bucket: tame_gcs::types::BucketName::non_validated(bucket), object: tame_gcs::types::ObjectName::non_validated(object) };
    let (parts, _) = tame_gcs::objects::Object::default().download(&id, None)?.into_parts();
    let headers = parts.headers.iter().map(|(k, v)| (k.to_string(), v.as_bytes().to_vec())).collect();
    Ok(ObjectRequest { method: parts.method.to_string(), uri: parts.uri.to_string(), headers, body: Vec::new() })
}

/// Forms an object metadata request with tame-gcs's `Object::get` on the names taken
/// unvalidated, and converts it to plain values. The contract names the result.
#[verifier::external_body]
fn tame_get(bucket: &str, object: &str) -> (r: Result<ObjectRequest, tame_gcs::Error>)
    ensures
        match r {
            Ok(q) => tame_get_request(bucket@, object@) == Some(request_view(q)),
            Err(_) => tame_get_request(bucket@, object@) is None,
        },
{
    let id = tame_gcs::types::ObjectId { bucket: tame_gcs::types::BucketName::non_validated(bucket), object: tame_gcs::types::ObjectName::non_validated(object) };
    let (parts, _) = tame_gcs::objects::Object::default().get(&id, None)?.into_parts();
    let headers = parts.headers.iter().map(|(k, v)| (k.to_string(), v.as_bytes().to_vec())).collect();
    Ok(ObjectRequest { method: parts.method.to_string(), uri: parts.uri.to_string(), headers, body: Vec::new() })
}

/// Forms an object insert request with tame-gcs's `Object::insert_simple` on the names taken
/// unvalidated and the content, and converts it to plain values. The contract names the
/// result.
#[verifier::external_body]
fn tame_insert(bucket: &str, object: &str, content: Vec<u8>) -> (r: Result<ObjectRequest, tame_gcs::Error>)
    ensures
        match r {
            Ok(q) => tame_insert_request(bucket@, object@, content@) == Some(request_view(q)),
            Err(_) => tame_insert_request(bucket@, object@, content@) is None,
        },
{
    let id = tame_gcs::types::ObjectId { bucket: tame_gcs::types::BucketName::non_validated(bucket), object: tame_gcs::types::ObjectName::non_validated(object) };
    let len = content.len() as u64;
    let (parts, body) = tame_gcs::objects::Object::default().insert_simple(&id, content, len, None)?.into_parts();
    let headers = parts.headers.iter().map(|(k, v)| (k.to_string(), v.as_bytes().to_vec())).collect();
    Ok(ObjectRequest { method: parts.method.to_string(), uri: parts.uri.to_string(), headers, body })
}

/// The metadata stored with an object: its name, as a plain value, and the other fields. The
/// name that `rest` itself holds is ignored: `name` replaces it.
pub struct ObjectMetadata {
    /// The object's name.
    pub name: Option<String>,
    /// The other fields of the metadata.
    pub rest: tame_gcs::objects::Metadata,
}

/// The URI of a multipart insert into a bucket, at the standard authority and with the
/// default query parameters (which turn pretty printing off).
pub open spec fn multipart_insert_uri(bucket: Seq<char>) -> Seq<char> {
    "https://storage.googleapis.com/upload/storage/v1/b/"@ + bucket
        + "/o?uploadType=multipart&prettyPrint=false"@
}

/// The bytes that close a multipart body: a line break and `--tame_gcs--`.
pub open spec fn multipart_suffix() -> Seq<u8> {
    seq![10u8, 45u8, 45u8, 116u8, 97u8, 109u8, 101u8, 95u8, 103u8, 99u8, 115u8, 45u8, 45u8]
}

/// Forms a multipart insert request, content together with metadata, with tame-gcs's
/// `Object::insert_multipart`, and converts it to plain values, reading the multipart body
/// out. The contract claims what the source shows for a valid bucket name: the request is
/// formed exactly when the metadata names the object with a valid object name; it is a `POST`
/// to the bucket's multipart upload URI (a valid bucket name holds no character that the path
/// encoding changes); and its body is a prefix, then the content itself, then the closing
/// boundary. The prefix (which holds the serialized metadata) and the headers depend on the
/// other metadata fields, an opaque value here, and are left unsaid.
#[verifier::external_body]
fn tame_insert_multipart(bucket: &str, metadata: ObjectMetadata, content: Vec<u8>) -> (r: Result<ObjectRequest, tame_gcs::Error>)
    requires
        bucket_name_valid(bucket@),
    ensures
        match r {
            Ok(q) => (metadata.name matches Some(n) && object_name_valid(n@)) && q.method@ == "POST"@
                && q.uri@ == multipart_insert_uri(bucket@) && exists|p: Seq<u8>|
                q.body@ == p + content@ + multipart_suffix(),
            Err(_) => !(metadata.name matches Some(n) && object_name_valid(n@)),
        },
{
    let mut meta = metadata.rest;
    meta.name = metadata.name;
    let len = content.len() as u64;
    let req = tame_gcs::objects::Object::default().insert_multipart(&tame_gcs::types::BucketName::non_validated(bucket), std::io::Cursor::new(content), len, &meta, None)?;
    let (parts, mut multipart) = req.into_parts();
    let mut body = Vec::new();
    std::io::Read::read_to_end(&mut multipart, &mut body).map_err(tame_gcs::Error::from)?;
    let headers = parts.headers.iter().map(|(k, v)| (k.to_string(), v.as_bytes().to_vec())).collect();
    Ok(ObjectRequest { method: parts.method.to_string(), uri: parts.uri.to_string(), headers, body })
}

/// Whether a byte may stand in an HTTP header value: a tab, or at least 32 and not 127.
pub open spec fn header_byte_valid(b: u8) -> bool {
    (b >= 32 && b != 127) || b == 9
}

/// The bytes of an optional value.
pub open spec fn bytes_view(v: Option<Vec<u8>>) -> Option<Seq<u8>> {
    match v {
        Some(b) => Some(b@),
        None => None,
    }
}

/// Whether a response can be formed from a status and an optional content type: the status
/// lies in `100..=999` and the content type's bytes may stand in a header value.
pub open spec fn response_parts_valid(status: u16, content_type: Option<Seq<u8>>) -> bool {
    &&& 100 <= status <= 999
    &&& match content_type {
        Some(ct) => forall|i: int| 0 <= i < ct.len() ==> header_byte_valid(#[trigger] ct[i]),
        None => true,
    }
}

/// Parses a download response with tame-gcs's `DownloadObjectResponse::try_from_parts`, the
/// response formed from its status, content type and body. The contract claims what the
/// source shows: a success status (`200..=299`) gives the body itself, any other status an
/// error (which error is left unsaid).
#[verifier::external_body]
fn tame_download_response(status: u16, content_type: Option<Vec<u8>>, payload: Vec<u8>) -> (r: Result<Vec<u8>, tame_gcs::Error>)
    ensures
        match r {
            Ok(b) => b@ == payload@ && response_parts_valid(status, bytes_view(content_type)) && 200 <= status <= 299,
            Err(_) => !(response_parts_valid(status, bytes_view(content_type)) && 200 <= status <= 299),
        },
{
    let mut builder = http::Response::builder().status(status);
    if let Some(ct) = content_type { builder = builder.header(http::header::CONTENT_TYPE, ct); }
    let response = builder.body(bytes::Bytes::from(payload))?;
    let parsed = <tame_gcs::objects::DownloadObjectResponse as tame_gcs::ApiResponse<bytes::Bytes>>::try_from_parts(response)?;
    Ok(parsed.consume().to_vec())
}

/// Whether a response body parses, with tame-gcs's `GetObjectResponse::try_from`, as an
/// object's metadata: a function of the body alone.
pub uninterp spec fn tame_get_metadata_parses(payload: Seq<u8>) -> bool;

/// Whether a response body parses, with tame-gcs's `InsertResponse::try_from`, as the stored
/// object's metadata: a function of the body alone.
pub uninterp spec fn tame_insert_metadata_parses(payload: Seq<u8>) -> bool;

/// Parses a metadata response with tame-gcs's `GetObjectResponse::try_from_parts`, the
/// response formed from its status, content type and body. The contract claims what the
/// source shows: metadata comes back exactly when the response can be formed, its status is
/// a success (`200..=299`) and its body parses as metadata; which metadata, an opaque value
/// here, is left unsaid.
#[verifier::external_body]
fn tame_get_response(status: u16, content_type: Option<Vec<u8>>, payload: Vec<u8>) -> (r: Result<tame_gcs::objects::Metadata, tame_gcs::Error>)
    ensures
        match r {
            Ok(_) => response_parts_valid(status, bytes_view(content_type)) && 200 <= status <= 299 && tame_get_metadata_parses(payload@),
            Err(_) => !(response_parts_valid(status, bytes_view(content_type)) && 200 <= status <= 299 && tame_get_metadata_parses(payload@)),
        },
{
    let mut builder = http::Response::builder().status(status);
    if let Some(ct) = content_type { builder = builder.header(http::header::CONTENT_TYPE, ct); }
    let response = builder.body(bytes::Bytes::from(payload))?;
    Ok(<tame_gcs::objects::GetObjectResponse as tame_gcs::ApiResponse<bytes::Bytes>>::try_from_parts(response)?.metadata)
}

/// Parses an insert response with tame-gcs's `InsertResponse::try_from_parts`, the response
/// formed from its status, content type and body. The contract claims what the source shows:
/// metadata comes back exactly when the response can be formed, its status is a success
/// (`200..=299`) and its body parses as metadata; which metadata, an opaque value here, is
/// left unsaid.
#[verifier::external_body]
fn tame_insert_response(status: u16, content_type: Option<Vec<u8>>, payload: Vec<u8>) -> (r: Result<tame_gcs::objects::Metadata, tame_gcs::Error>)
    ensures
        match r {
            Ok(_) => response_parts_valid(status, bytes_view(content_type)) && 200 <= status <= 299 && tame_insert_metadata_parses(payload@),
            Err(_) => !(response_parts_valid(status, bytes_view(content_type)) && 200 <= status <= 299 && tame_insert_metadata_parses(payload@)),
        },
{
    let mut builder = http::Response::builder().status(status);
    if let Some(ct) = content_type { builder = builder.header(http::header::CONTENT_TYPE, ct); }
    let response = builder.body(bytes::Bytes::from(payload))?;
    Ok(<tame_gcs::objects::InsertResponse as tame_gcs::ApiResponse<bytes::Bytes>>::try_from_parts(response)?.metadata)
}

/// Errors in forming a Cloud Storage request or reading its response.
#[derive(Debug)]
pub enum ObjectRequestError {
    /// The given object name was invalid
    InvalidName(InvalidNameError),
    /// The request could not be formed
    InvalidRequest(tame_gcs::Error),
    /// The response indicated some invalid state
    Failure(tame_gcs::Error),
}

/// The outcome of forming a request for validated names: the named request, or an
/// `InvalidRequest` error when tame-gcs forms none.
pub open spec fn formed(r: Result<ObjectRequest, ObjectRequestError>, named: Option<ObjectRequestView>) -> bool {
    match r {
        Ok(q) => named == Some(request_view(q)),
        Err(ObjectRequestError::InvalidRequest(_)) => named is None,
        Err(_) => false,
    }
}

/// The errors for invalid names: a bad bucket name first, then a bad object name, each with
/// the name it is about.
pub open spec fn name_errors(r: Result<ObjectRequest, ObjectRequestError>, bucket_name: Seq<char>, object_name: Seq<char>) -> bool {
    &&& !bucket_name_valid(bucket_name) ==> (r matches Err(ObjectRequestError::InvalidName(InvalidNameError::Bucket(_, n))) && n@ == bucket_name)
    &&& bucket_name_valid(bucket_name) && !object_name_valid(object_name) ==> (r matches Err(ObjectRequestError::InvalidName(InvalidNameError::Object(_, n))) && n@ == object_name)
}

/// The request downloading an object's contents. Invalid names are refused as
/// `names_to_object` refuses them; for valid names the request is the one tame-gcs forms.
pub fn object_download_request(bucket_name: &str, object_name: &str) -> (r: Result<ObjectRequest, ObjectRequestError>)
    ensures
        name_errors(r, bucket_name@, object_name@),
        bucket_name_valid(bucket_name@) && object_name_valid(object_name@) ==> formed(r, tame_download_request(bucket_name@, object_name@)),
        r is Ok ==> bucket_name_valid(bucket_name@) && object_name_valid(object_name@),
{
    match names_to_object(bucket_name, object_name) {
        Err(e) => Err(ObjectRequestError::InvalidName(e)),
        Ok(id) => match tame_download(id.bucket.as_str(), id.object.as_str()) {
            Ok(q) => Ok(q),
            Err(e) => Err(ObjectRequestError::InvalidRequest(e)),
        },
    }
}

/// The request reading an object's metadata. Invalid names are refused as `names_to_object`
/// refuses them; for valid names the request is the one tame-gcs forms.
pub fn object_get_request(bucket_name: &str, object_name: &str) -> (r: Result<ObjectRequest, ObjectRequestError>)
    ensures
        name_errors(r, bucket_name@, object_name@),
        bucket_name_valid(bucket_name@) && object_name_valid(object_name@) ==> formed(r, tame_get_request(bucket_name@, object_name@)),
        r is Ok ==> bucket_name_valid(bucket_name@) && object_name_valid(object_name@),
{
    match names_to_object(bucket_name, object_name) {
        Err(e) => Err(ObjectRequestError::InvalidName(e)),
        Ok(id) => match tame_get(id.bucket.as_str(), id.object.as_str()) {
            Ok(q) => Ok(q),
            Err(e) => Err(ObjectRequestError::InvalidRequest(e)),
        },
    }
}

/// The request storing the given data as an object without additional metadata. Invalid
/// names are refused as `names_to_object` refuses them; for valid names the request is the
/// one tame-gcs forms.
pub fn object_insert_request(bucket_name: &str, object_name: &str, data: Vec<u8>) -> (r: Result<ObjectRequest, ObjectRequestError>)
    ensures
        name_errors(r, bucket_name@, object_name@),
        bucket_name_valid(bucket_name@) && object_name_valid(object_name@) ==> formed(r, tame_insert_request(bucket_name@, object_name@, data@)),
        r is Ok ==> bucket_name_valid(bucket_name@) && object_name_valid(object_name@),
{
    match names_to_object(bucket_name, object_name) {
        Err(e) => Err(ObjectRequestError::InvalidName(e)),
        Ok(id) => match tame_insert(id.bucket.as_str(), id.object.as_str(), data) {
            Ok(q) => Ok(q),
            Err(e) => Err(ObjectRequestError::InvalidRequest(e)),
        },
    }
}

/// The request storing the given data as an object together with its metadata, which names
/// the object. An invalid bucket name is refused as `bucket` refuses it; for a valid one, the
/// request is formed exactly when the metadata names the object with a valid name, and
/// otherwise tame-gcs's error is an `InvalidRequest`. The request's body carries the data
/// whole, just before the closing boundary.
pub fn object_insert_with_metadata_request(bucket_name: &str, metadata: ObjectMetadata, data: Vec<u8>) -> (r: Result<ObjectRequest, ObjectRequestError>)
    ensures
        !bucket_name_valid(bucket_name@) ==> (r matches Err(ObjectRequestError::InvalidName(InvalidNameError::Bucket(_, n))) && n@ == bucket_name@),
        bucket_name_valid(bucket_name@) ==> (r is Ok <==> (metadata.name matches Some(n) && object_name_valid(n@))),
        bucket_name_valid(bucket_name@) && !(metadata.name matches Some(n) && object_name_valid(n@)) ==> r matches Err(ObjectRequestError::InvalidRequest(_)),
        r matches Ok(q) ==> q.method@ == "POST"@ && q.uri@ == multipart_insert_uri(bucket_name@)
            && exists|p: Seq<u8>| q.body@ == p + data@ + multipart_suffix(),
{
    match bucket(bucket_name) {
        Err(e) => Err(ObjectRequestError::InvalidName(InvalidNameError::Bucket(e, bucket_name.to_string()))),
        Ok(b) => match tame_insert_multipart(b.as_str(), metadata, data) {
            Ok(q) => Ok(q),
            Err(e) => Err(ObjectRequestError::InvalidRequest(e)),
        },
    }
}

/// The contents of a downloaded object: a success status gives the body; any other status is
/// a `Failure`.
pub fn object_download_response(status: u16, content_type: Option<Vec<u8>>, body: Vec<u8>) -> (r: Result<Vec<u8>, ObjectRequestError>)
    ensures
        response_parts_valid(status, bytes_view(content_type)) && 200 <= status <= 299 ==> (r matches Ok(b) && b@ == body@),
        r is Ok ==> 200 <= status <= 299,
        r matches Err(e) ==> e is Failure,
{
    match tame_download_response(status, content_type, body) {
        Ok(b) => Ok(b),
        Err(e) => Err(ObjectRequestError::Failure(e)),
    }
}

/// The metadata of an object read from a metadata response: it comes back exactly when the
/// response can be formed, its status is a success and its body parses as metadata; any
/// other response is a `Failure`.
pub fn object_get_response(status: u16, content_type: Option<Vec<u8>>, body: Vec<u8>) -> (r: Result<tame_gcs::objects::Metadata, ObjectRequestError>)
    ensures
        r is Ok <==> response_parts_valid(status, bytes_view(content_type)) && 200 <= status <= 299 && tame_get_metadata_parses(body@),
        r matches Err(e) ==> e is Failure,
{
    match tame_get_response(status, content_type, body) {
        Ok(m) => Ok(m),
        Err(e) => Err(ObjectRequestError::Failure(e)),
    }
}

/// The metadata of a stored object read from an insert response: it comes back exactly when
/// the response can be formed, its status is a success and its body parses as metadata; any
/// other response is a `Failure`.
pub fn object_insert_response(status: u16, content_type: Option<Vec<u8>>, body: Vec<u8>) -> (r: Result<tame_gcs::objects::Metadata, ObjectRequestError>)
    ensures
        r is Ok <==> response_parts_valid(status, bytes_view(content_type)) && 200 <= status <= 299 && tame_insert_metadata_parses(body@),
        r matches Err(e) ==> e is Failure,
{
    match tame_insert_response(status, content_type, body) {
        Ok(m) => Ok(m),
        Err(e) => Err(ObjectRequestError::Failure(e)),
    }
}

} // verus!
