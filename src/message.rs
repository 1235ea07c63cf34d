//! Request and response envelopes, reduced to what admission reads and writes.

use vstd::prelude::*;

verus! {

/// One header line: a name (compared without regard to ASCII case) and a value.
#[derive(Debug, Clone)]
pub struct Header {
    pub name: Vec<u8>,
    pub value: Vec<u8>,
}

/// A request envelope: its header lines in order, and a body that is carried
/// through untouched.
#[derive(Debug)]
pub struct Request<B> {
    pub headers: Vec<Header>,
    pub body: B,
}

/// A response synthesised by the library: a status code, header lines and a body.
#[derive(Debug)]
pub struct Response {
    pub status: u16,
    pub headers: Vec<Header>,
    pub body: Vec<u8>,
}

/// ASCII lower case of one byte.
pub open spec fn ascii_lower(b: u8) -> u8 {
    if 65 <= b <= 90 {
        (b + 32) as u8
    } else {
        b
    }
}

/// Two header names are the same name when they agree byte for byte up to ASCII case.
pub open spec fn same_name(a: Seq<u8>, b: Seq<u8>) -> bool {
    a.len() == b.len() && forall|i: int| 0 <= i < a.len() ==> ascii_lower(a[i]) == ascii_lower(b[i])
}

/// The value of the first header line at or after `i` whose name is `name`.
pub open spec fn first_value_from(hs: Seq<Header>, name: Seq<u8>, i: int) -> Option<Seq<u8>>
    decreases hs.len() - i,
{
    if i < 0 || i >= hs.len() {
        None
    } else if same_name(hs[i].name@, name) {
        Some(hs[i].value@)
    } else {
        first_value_from(hs, name, i + 1)
    }
}

/// The value of the first header line named `name`, if there is one.
pub open spec fn header_value(hs: Seq<Header>, name: Seq<u8>) -> Option<Seq<u8>> {
    first_value_from(hs, name, 0)
}

/// The name `authorization`.
pub open spec fn authorization_name() -> Seq<u8> {
    seq![97u8, 117, 116, 104, 111, 114, 105, 122, 97, 116, 105, 111, 110]
}

/// The name `www-authenticate`.
pub open spec fn www_authenticate_name() -> Seq<u8> {
    seq![119u8, 119, 119, 45, 97, 117, 116, 104, 101, 110, 116, 105, 99, 97, 116, 101]
}

/// The bytes of the name `authorization`.
pub fn authorization() -> (r: Vec<u8>)
    ensures
        r@ == authorization_name(),
{
    let r: Vec<u8> = vec![97u8, 117, 116, 104, 111, 114, 105, 122, 97, 116, 105, 111, 110];
    assert(r@ =~= authorization_name());
    r
}

/// The bytes of the name `www-authenticate`.
pub fn www_authenticate() -> (r: Vec<u8>)
    ensures
        r@ == www_authenticate_name(),
{
    let r: Vec<u8> = vec![119u8, 119, 119, 45, 97, 117, 116, 104, 101, 110, 116, 105, 99, 97, 116, 101];
    assert(r@ =~= www_authenticate_name());
    r
}

fn lower_byte(b: u8) -> (r: u8)
    ensures
        r == ascii_lower(b),
{
    if 65 <= b && b <= 90 {
        b + 32
    } else {
        b
    }
}

/// Whether two header names are the same name.
pub fn names_equal(a: &[u8], b: &[u8]) -> (r: bool)
    ensures
        r == same_name(a@, b@),
{
    if a.len() != b.len() {
        return false;
    }
    let mut i: usize = 0;
    while i < a.len()
        invariant
            a@.len() == b@.len(),
            i <= a@.len(),
            forall|j: int| 0 <= j < i ==> ascii_lower(a@[j]) == ascii_lower(b@[j]),
        decreases a@.len() - i,
    {
        if lower_byte(a[i]) != lower_byte(b[i]) {
            return false;
        }
        i = i + 1;
    }
    true
}

/// Whether two byte strings are equal.
pub fn bytes_equal(a: &[u8], b: &[u8]) -> (r: bool)
    ensures
        r == (a@ == b@),
{
    if a.len() != b.len() {
        return false;
    }
    let mut i: usize = 0;
    while i < a.len()
        invariant
            a@.len() == b@.len(),
            i <= a@.len(),
            forall|j: int| 0 <= j < i ==> a@[j] == b@[j],
        decreases a@.len() - i,
    {
        if a[i] != b[i] {
            return false;
        }
        i = i + 1;
    }
    assert(a@ =~= b@);
    true
}

/// The value of the first header line named `name`; header names match
/// without regard to ASCII case.
pub fn find_header<'a>(headers: &'a Vec<Header>, name: &[u8]) -> (r: Option<&'a Vec<u8>>)
    ensures
        match r {
            Some(v) => header_value(headers@, name@) == Some(v@),
            None => header_value(headers@, name@).is_none(),
        },
{
    let mut i: usize = 0;
    while i < headers.len()
        invariant
            i <= headers@.len(),
            first_value_from(headers@, name@, 0) == first_value_from(headers@, name@, i as int),
        decreases headers@.len() - i,
    {
        if names_equal(headers[i].name.as_slice(), name) {
            return Some(&headers[i].value);
        }
        i = i + 1;
    }
    None
}

impl<B> Request<B> {
    /// A request with no header lines and the given body.
    pub fn new(body: B) -> (r: Request<B>)
        ensures
            r.headers@.len() == 0,
            r.body == body,
    {
        Request { headers: Vec::new(), body }
    }

    /// Appends a header line.
    pub fn insert_header(&mut self, name: Vec<u8>, value: Vec<u8>)
        ensures
            final(self).headers@ == old(self).headers@.push(Header { name, value }),
            final(self).body == old(self).body,
    {
        self.headers.push(Header { name, value });
    }

    /// The value of the `authorization` header, if there is one.
    pub fn authorization(&self) -> (r: Option<&Vec<u8>>)
        ensures
            match r {
                Some(v) => header_value(self.headers@, authorization_name()) == Some(v@),
                None => header_value(self.headers@, authorization_name()).is_none(),
            },
    {
        let name = authorization();
        find_header(&self.headers, name.as_slice())
    }
}

impl Response {
    /// The value of the first header line named `name`.
    pub fn header(&self, name: &[u8]) -> (r: Option<&Vec<u8>>)
        ensures
            match r {
                Some(v) => header_value(self.headers@, name@) == Some(v@),
                None => header_value(self.headers@, name@).is_none(),
            },
    {
        find_header(&self.headers, name)
    }
}

} // verus!
