//! Admission decisions: the scheme interface, and the bearer-token and
//! username/password schemes.

use vstd::prelude::*;
use vstd::string::StringSliceAdditionalSpecFns;
use crate::message::{
    authorization_name, bytes_equal, header_value, same_name, www_authenticate,
    www_authenticate_name,
    Header, Request, Response,
};

verus! {

/// The status code of a rejection: Unauthorized.
pub const UNAUTHORIZED: u16 = 401;

/// A byte that may stand in a header value: visible ASCII, space, tab, or any
/// byte from 128 up.
pub open spec fn header_byte_ok(b: u8) -> bool {
    (b >= 32 && b != 127) || b == 9
}

/// Whether every byte of `s` may stand in a header value.
pub open spec fn header_bytes_ok(s: Seq<u8>) -> bool {
    forall|i: int| 0 <= i < s.len() ==> header_byte_ok(#[trigger] s[i])
}

/// A byte of the standard base64 alphabet, padding included.
pub open spec fn base64_byte(b: u8) -> bool {
    (65 <= b <= 90) || (97 <= b <= 122) || (48 <= b <= 57) || b == 43 || b == 47 || b == 61
}

/// Standard base64 encoding, with padding, of a byte string.
pub uninterp spec fn base64_of(b: Seq<u8>) -> Seq<u8>;

/// Relies on http::HeaderValue::from_bytes, which accepts exactly the byte
/// strings whose every byte is a tab, or at least 32 and not 127.
#[verifier::external_body]
fn header_value_accepted(b: &[u8]) -> (r: bool)
    ensures
        r == header_bytes_ok(b@),
{
    http::HeaderValue::from_bytes(b).is_ok()
}

/// Relies on base64::encode, which encodes with the standard alphabet and
/// padding, so that every byte of the result is of that alphabet.
#[verifier::external_body]
fn base64_encode(b: &[u8]) -> (r: Vec<u8>)
    ensures
        r@ == base64_of(b@),
        forall|i: int| 0 <= i < r@.len() ==> base64_byte(#[trigger] r@[i]),
{
    base64::encode(b).into_bytes()
}

/// `Bearer ` followed by the token.
pub open spec fn bearer_value(token: Seq<u8>) -> Seq<u8> {
    seq![66u8, 101, 97, 114, 101, 114, 32] + token
}

/// `Basic ` followed by the base64 encoding of `username:password`.
pub open spec fn basic_value(username: Seq<u8>, password: Seq<u8>) -> Seq<u8> {
    seq![66u8, 97, 115, 105, 99, 32] + base64_of(username + seq![58u8] + password)
}

/// The value `Basic` of the challenge header.
pub open spec fn basic_challenge() -> Seq<u8> {
    seq![66u8, 97, 115, 105, 99]
}

/// Whether the request's `authorization` header is present and equal to `expected`.
pub open spec fn credential_matches(headers: Seq<Header>, expected: Seq<u8>) -> bool {
    header_value(headers, authorization_name()) == Some(expected)
}

/// A scheme that decides whether a request is admitted and builds the
/// response to one that is not.
pub trait AuthorizeRequest: Sized {
    /// What a successful decision yields.
    type Output;

    /// Whether a request with these header lines is admitted.
    spec fn accepts(&self, headers: Seq<Header>) -> bool;

    /// The header lines of an admitted request once the decision's output is attached.
    spec fn annotated(&self, headers: Seq<Header>, output: Self::Output) -> Seq<Header>;

    /// Whether `r` is the response to a rejected request with these header lines.
    spec fn is_rejection(&self, headers: Seq<Header>, r: Response) -> bool;

    /// Decides whether the request is admitted: `Some` exactly when it is.
    fn authorize<B>(&mut self, request: &Request<B>) -> (r: Option<Self::Output>)
        ensures
            *final(self) == *old(self),
            r.is_some() == old(self).accepts(request.headers@),
    ;

    /// Called with the output of a decision that admitted the request.
    fn on_authorized<B>(&mut self, request: &mut Request<B>, output: Self::Output)
        ensures
            *final(self) == *old(self),
            final(request).body == old(request).body,
            final(request).headers@ == old(self).annotated(old(request).headers@, output),
    ;

    /// The response to a rejected request.
    fn unauthorized_response<B>(&mut self, request: &Request<B>) -> (r: Response)
        ensures
            *final(self) == *old(self),
            old(self).is_rejection(request.headers@, r),
    ;
}

/// Bytes `a` followed by bytes `b`.
fn concat(a: &[u8], b: &[u8]) -> (r: Vec<u8>)
    ensures
        r@ == a@ + b@,
{
    let mut r: Vec<u8> = Vec::new();
    let mut i: usize = 0;
    while i < a.len()
        invariant
            i <= a@.len(),
            r@ == a@.subrange(0, i as int),
        decreases a@.len() - i,
    {
        r.push(a[i]);
        i = i + 1;
        assert(r@ =~= a@.subrange(0, i as int));
    }
    let mut j: usize = 0;
    while j < b.len()
        invariant
            j <= b@.len(),
            r@ == a@ + b@.subrange(0, j as int),
        decreases b@.len() - j,
    {
        r.push(b[j]);
        j = j + 1;
        assert(r@ =~= a@ + b@.subrange(0, j as int));
    }
    assert(b@.subrange(0, b@.len() as int) =~= b@);
    r
}

/// Whether the request's `authorization` header equals `expected`.
fn check_credential<B>(request: &Request<B>, expected: &Vec<u8>) -> (r: bool)
    ensures
        r == credential_matches(request.headers@, expected@),
{
    match request.authorization() {
        Some(actual) => bytes_equal(actual.as_slice(), expected.as_slice()),
        None => false,
    }
}

/// A 401 response with an empty body and the given header lines.
fn unauthorized(headers: Vec<Header>) -> (r: Response)
    ensures
        r.status == UNAUTHORIZED,
        r.headers == headers,
        r.body@.len() == 0,
{
    Response { status: UNAUTHORIZED, headers, body: Vec::new() }
}

/// Admits requests whose `authorization` header is `Bearer {token}`.
#[derive(Debug)]
pub struct Bearer {
    header_value: Vec<u8>,
}

impl View for Bearer {
    type V = Seq<u8>;

    /// The exact header value that is admitted.
    closed spec fn view(&self) -> Seq<u8> {
        self.header_value@
    }
}

impl Bearer {
    /// The scheme for `token`, or `None` when `Bearer {token}` is not a valid header value.
    pub fn try_new(token: &str) -> (r: Option<Bearer>)
        ensures
            r.is_some() == header_bytes_ok(bearer_value(token.spec_bytes())),
            r matches Some(b) ==> b@ == bearer_value(token.spec_bytes()),
    {
        let prefix: Vec<u8> = vec![66u8, 101, 97, 114, 101, 114, 32];
        assert(prefix@ =~= seq![66u8, 101, 97, 114, 101, 114, 32]);
        let value = concat(prefix.as_slice(), token.as_bytes());
        if header_value_accepted(value.as_slice()) {
            Some(Bearer { header_value: value })
        } else {
            None
        }
    }

    /// The scheme for `token`.
    pub fn new(token: &str) -> (r: Bearer)
        requires
            header_bytes_ok(bearer_value(token.spec_bytes())),
        ensures
            r@ == bearer_value(token.spec_bytes()),
    {
        match Bearer::try_new(token) {
            Some(b) => b,
            None => {
                proof {
                    assert(false);
                }
                Bearer { header_value: Vec::new() }
            },
        }
    }

    /// The exact header value that is admitted.
    pub fn header_value(&self) -> (r: &[u8])
        ensures
            r@ == self@,
    {
        self.header_value.as_slice()
    }
}

impl Clone for Bearer {
    /// A scheme that admits the same requests.
    fn clone(&self) -> (r: Bearer)
        ensures
            r@ == self@,
    {
        Bearer { header_value: self.header_value.clone() }
    }
}

impl AuthorizeRequest for Bearer {
    type Output = ();

    open spec fn accepts(&self, headers: Seq<Header>) -> bool {
        credential_matches(headers, self@)
    }

    open spec fn annotated(&self, headers: Seq<Header>, output: ()) -> Seq<Header> {
        headers
    }

    open spec fn is_rejection(&self, headers: Seq<Header>, r: Response) -> bool {
        r.status == UNAUTHORIZED && r.headers@.len() == 0 && r.body@.len() == 0
    }

    fn authorize<B>(&mut self, request: &Request<B>) -> (r: Option<()>) {
        if check_credential(request, &self.header_value) {
            Some(())
        } else {
            None
        }
    }

    fn on_authorized<B>(&mut self, request: &mut Request<B>, output: ()) {
    }

    fn unauthorized_response<B>(&mut self, request: &Request<B>) -> (r: Response) {
        unauthorized(Vec::new())
    }
}

/// Admits requests whose `authorization` header is `Basic` followed by the
/// base64 encoding of `username:password`.
#[derive(Debug)]
pub struct Basic {
    header_value: Vec<u8>,
}

impl View for Basic {
    type V = Seq<u8>;

    /// The exact header value that is admitted.
    closed spec fn view(&self) -> Seq<u8> {
        self.header_value@
    }
}

impl Basic {
    /// The scheme for this username and password.
    pub fn new(username: &str, password: &str) -> (r: Basic)
        ensures
            r@ == basic_value(username.spec_bytes(), password.spec_bytes()),
            header_bytes_ok(r@),
    {
        let colon: Vec<u8> = vec![58u8];
        assert(colon@ =~= seq![58u8]);
        let user_colon = concat(username.as_bytes(), colon.as_slice());
        let credentials = concat(user_colon.as_slice(), password.as_bytes());
        let encoded = base64_encode(credentials.as_slice());
        let prefix: Vec<u8> = vec![66u8, 97, 115, 105, 99, 32];
        assert(prefix@ =~= seq![66u8, 97, 115, 105, 99, 32]);
        let value = concat(prefix.as_slice(), encoded.as_slice());
        assert forall|i: int| 0 <= i < value@.len() implies header_byte_ok(#[trigger] value@[i]) by {
            if i >= prefix@.len() {
                assert(value@[i] == encoded@[i - prefix@.len()]);
                assert(base64_byte(encoded@[i - prefix@.len()]));
            }
        }
        Basic { header_value: value }
    }

    /// The exact header value that is admitted.
    pub fn header_value(&self) -> (r: &[u8])
        ensures
            r@ == self@,
    {
        self.header_value.as_slice()
    }
}

impl Clone for Basic {
    /// A scheme that admits the same requests.
    fn clone(&self) -> (r: Basic)
        ensures
            r@ == self@,
    {
        Basic { header_value: self.header_value.clone() }
    }
}

impl AuthorizeRequest for Basic {
    type Output = ();

    open spec fn accepts(&self, headers: Seq<Header>) -> bool {
        credential_matches(headers, self@)
    }

    open spec fn annotated(&self, headers: Seq<Header>, output: ()) -> Seq<Header> {
        headers
    }

    open spec fn is_rejection(&self, headers: Seq<Header>, r: Response) -> bool {
        &&& r.status == UNAUTHORIZED
        &&& r.body@.len() == 0
        &&& r.headers@.len() == 1
        &&& r.headers@[0].name@ == www_authenticate_name()
        &&& r.headers@[0].value@ == basic_challenge()
    }

    fn authorize<B>(&mut self, request: &Request<B>) -> (r: Option<()>) {
        if check_credential(request, &self.header_value) {
            Some(())
        } else {
            None
        }
    }

    fn on_authorized<B>(&mut self, request: &mut Request<B>, output: ()) {
    }

    fn unauthorized_response<B>(&mut self, request: &Request<B>) -> (r: Response) {
        let value: Vec<u8> = vec![66u8, 97, 115, 105, 99];
        assert(value@ =~= basic_challenge());
        let mut headers: Vec<Header> = Vec::new();
        headers.push(Header { name: www_authenticate(), value });
        unauthorized(headers)
    }
}

/// The bearer scheme admits a request exactly when its `authorization` header
/// equals the expected value; an admitted request is forwarded with its
/// header lines unchanged, and a rejection has status 401 and no header lines,
/// so no challenge.
pub proof fn lemma_bearer_decision(auth: Bearer, headers: Seq<Header>, o: (), r: Response)
    ensures
        auth.accepts(headers) <==> credential_matches(headers, auth@),
        auth.annotated(headers, o) == headers,
        auth.is_rejection(headers, r) ==> r.status == UNAUTHORIZED,
        auth.is_rejection(headers, r) ==> header_value(r.headers@, www_authenticate_name()).is_none(),
{
}

/// The basic scheme admits a request exactly when its `authorization` header
/// equals the expected value; an admitted request is forwarded with its
/// header lines unchanged, and a rejection has status 401 and carries
/// `www-authenticate: Basic`.
pub proof fn lemma_basic_decision(auth: Basic, headers: Seq<Header>, o: (), r: Response)
    ensures
        auth.accepts(headers) <==> credential_matches(headers, auth@),
        auth.annotated(headers, o) == headers,
        auth.is_rejection(headers, r) ==> r.status == UNAUTHORIZED,
        auth.is_rejection(headers, r) ==> header_value(r.headers@, www_authenticate_name()) == Some(
            basic_challenge(),
        ),
{
    if auth.is_rejection(headers, r) {
        assert(same_name(r.headers@[0].name@, www_authenticate_name()));
    }
}

} // verus!
