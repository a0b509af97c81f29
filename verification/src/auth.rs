//! Authorization of requests: the bearer header that carries a token, and the service that
//! attaches it to each request.
use vstd::prelude::*;

use crate::text::concat_strs;

verus! {

#[verifier::external_type_specification]
#[verifier::external_body]
pub struct ExHeaderValue(http::HeaderValue);

#[verifier::external_type_specification]
#[verifier::external_body]
pub struct ExInvalidHeaderValue(http::header::InvalidHeaderValue);

/// Whether a character may stand in an HTTP header value: every byte of its UTF-8 encoding is
/// a tab or at least 32 and not 127. Characters beyond ASCII encode to bytes of at least 128.
pub open spec fn header_char_valid(c: char) -> bool {
    ((c as u32) >= 32 && (c as u32) != 127) || c == '\t'
}

/// Whether every character of a string may stand in an HTTP header value.
pub open spec fn header_text_valid(s: Seq<char>) -> bool {
    forall|i: int| 0 <= i < s.len() ==> header_char_valid(#[trigger] s[i])
}

/// The text of the authorization header carrying a token.
pub open spec fn bearer_text(token: Seq<char>) -> Seq<char> {
    seq!['B', 'e', 'a', 'r', 'e', 'r', ' '] + token
}

/// Makes a header value with http's `HeaderValue::from_str`, and reads its bytes back with
/// `HeaderValue::as_bytes`. The contract claims what their source shows: the value is refused
/// exactly when some byte is neither a tab nor a visible byte (32 or more, other than 127),
/// and an accepted value holds the UTF-8 bytes of the text.
#[verifier::external_body]
fn header_value_from_str(s: &str) -> (r: Result<(http::HeaderValue, Vec<u8>), http::header::InvalidHeaderValue>)
    ensures
        r is Ok <==> header_text_valid(s@),
        r matches Ok(p) ==> p.1@ == vstd::utf8::encode_utf8(s@),
{
    let value = http::HeaderValue::from_str(s)?;
    let bytes = value.as_bytes().to_vec();
    Ok((value, bytes))
}

/// An HTTP header value together with its bytes.
pub struct HeaderValueBytes {
    value: http::HeaderValue,
    bytes: Vec<u8>,
}

impl HeaderValueBytes {
    /// The bytes of the header value.
    pub closed spec fn bytes_spec(&self) -> Seq<u8> {
        self.bytes@
    }

    /// The bytes of the header value.
    pub fn as_bytes(&self) -> (r: &Vec<u8>)
        ensures
            r@ == self.bytes_spec(),
    {
        &self.bytes
    }

    /// The header value, to be set on a request.
    pub fn value(&self) -> (r: &http::HeaderValue) {
        &self.value
    }

    /// The header value, to be set on a request.
    pub fn into_value(self) -> (r: http::HeaderValue) {
        self.value
    }
}

/// The text of the authorization header for a token: `Bearer {token}`.
pub fn bearer_header_text(token: &str) -> (r: String)
    ensures
        r@ == bearer_text(token@),
{
    let prefix = "Bearer ";
    let pieces = [prefix, token];
    let r = concat_strs(&pieces);
    proof {
        reveal_strlit("Bearer ");
        reveal_with_fuel(Seq::fold_left, 3);
        let v = pieces@.map_values(|p: &str| p@);
        assert(v =~= seq![prefix@, token@]);
        assert(v.drop_last().drop_last() =~= Seq::<Seq<char>>::empty());
        assert(prefix@ =~= seq!['B', 'e', 'a', 'r', 'e', 'r', ' ']);
    }
    r
}

/// The authorization header value for a token: the UTF-8 bytes of `Bearer {token}`. It is
/// refused exactly when the token holds a character that cannot stand in a header value.
pub fn auth_header_value(token: &str) -> (r: Result<HeaderValueBytes, http::header::InvalidHeaderValue>)
    ensures
        r is Ok <==> header_text_valid(token@),
        r matches Ok(h) ==> h.bytes_spec() == vstd::utf8::encode_utf8(bearer_text(token@)),
{
    let text = bearer_header_text(token);
    proof {
        let b = bearer_text(token@);
        assert forall|i: int| 0 <= i < token@.len() implies header_char_valid(#[trigger] token@[i])
            == header_char_valid(b[i + 7]) by {
            assert(b[i + 7] == token@[i]);
        }
        if header_text_valid(token@) {
            assert forall|i: int| 0 <= i < b.len() implies header_char_valid(#[trigger] b[i]) by {
                if i >= 7 {
                    assert(header_char_valid(token@[i - 7]));
                }
            }
        } else {
            let i = choose|i: int| 0 <= i < token@.len() && !header_char_valid(#[trigger] token@[i]);
            assert(!header_char_valid(b[i + 7]));
        }
    }
    match header_value_from_str(text.as_str()) {
        Ok((value, bytes)) => Ok(HeaderValueBytes { value, bytes }),
        Err(e) => Err(e),
    }
}

/// A service that attaches an authorization header to each request before handing it to the
/// inner service. Without an authorization source (as against an emulator), requests pass
/// through unchanged.
pub struct AuthGrpcService<Service, A> {
    inner: Service,
    auth: Option<A>,
    scopes: Vec<String>,
}

impl<Service, A> AuthGrpcService<Service, A> {
    /// The wrapped service.
    pub closed spec fn inner_spec(&self) -> Service {
        self.inner
    }

    /// The source of authorization tokens, if any.
    pub closed spec fn auth_spec(&self) -> Option<A> {
        self.auth
    }

    /// The scopes for which tokens are requested.
    pub closed spec fn scopes_spec(&self) -> Seq<String> {
        self.scopes@
    }

    /// Wrap the given service to add authorization headers to each request
    pub fn new(service: Service, auth: Option<A>, scopes: Vec<String>) -> (r: Self)
        ensures
            r.inner_spec() == service,
            r.auth_spec() == auth,
            r.scopes_spec() == scopes@,
    {
        AuthGrpcService { inner: service, auth, scopes }
    }

    /// The wrapped service.
    pub fn inner(&self) -> (r: &Service)
        ensures
            *r == self.inner_spec(),
    {
        &self.inner
    }

    /// The wrapped service, to be called.
    pub fn inner_mut(&mut self) -> (r: &mut Service)
        ensures
            *r == old(self).inner_spec(),
            final(self).inner_spec() == *final(r),
            final(self).auth_spec() == old(self).auth_spec(),
            final(self).scopes_spec() == old(self).scopes_spec(),
    {
        &mut self.inner
    }

    /// The source of authorization tokens, if any.
    pub fn auth(&self) -> (r: &Option<A>)
        ensures
            *r == self.auth_spec(),
    {
        &self.auth
    }

    /// The scopes for which tokens are requested.
    pub fn scopes(&self) -> (r: &Vec<String>)
        ensures
            r@ == self.scopes_spec(),
    {
        &self.scopes
    }
}

} // verus!
