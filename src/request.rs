use vstd::prelude::*;
use vstd::slice::slice_subrange;

use crate::common::{
    bytes_eq, method_bytes, version_of, Body, Error, Headers, Method, Version, CR, LF, SP,
};

verus! {

/// `i` is the position of the first `sep` in `s`.
pub open spec fn is_first_index(s: Seq<u8>, sep: u8, i: int) -> bool {
    0 <= i < s.len() && s[i] == sep && forall|j: int| 0 <= j < i ==> s[j] != sep
}

/// `s` holds `sep` somewhere.
pub open spec fn contains_byte(s: Seq<u8>, sep: u8) -> bool {
    exists|i: int| 0 <= i < s.len() && s[i] == sep
}

/// Position of the first `sep` in `s`, or -1 when there is none.
pub open spec fn first_index(s: Seq<u8>, sep: u8) -> int {
    if exists|i: int| is_first_index(s, sep, i) {
        choose|i: int| is_first_index(s, sep, i)
    } else {
        -1
    }
}

/// The halves that `split` gives: the bytes before the first `sep` and those after it;
/// where `sep` does not occur, an empty first half and the whole of `s` as the second.
pub open spec fn split_spec(s: Seq<u8>, sep: u8) -> (Seq<u8>, Seq<u8>) {
    let i = first_index(s, sep);
    if i < 0 {
        (Seq::empty(), s)
    } else {
        (s.subrange(0, i), s.subrange(i + 1, s.len() as int))
    }
}

/// A first occurrence is unique, and exists exactly where `sep` occurs.
pub proof fn lemma_first_index(s: Seq<u8>, sep: u8, i: int)
    ensures
        is_first_index(s, sep, i) ==> first_index(s, sep) == i,
        !contains_byte(s, sep) ==> first_index(s, sep) == -1,
        first_index(s, sep) >= 0 ==> is_first_index(s, sep, first_index(s, sep)),
        first_index(s, sep) >= -1,
{
    if is_first_index(s, sep, i) {
        let k = choose|k: int| is_first_index(s, sep, k);
        assert(is_first_index(s, sep, k));
        if k < i {
            assert(s[k] != sep);
        } else if i < k {
            assert(s[i] != sep);
        }
    }
    if !contains_byte(s, sep) {
        assert(!exists|k: int| is_first_index(s, sep, k));
    }
}

/// Splits `bytes` at the first `separator`, which neither half holds. Where the separator
/// does not occur, the first half is empty and the second is the whole input.
pub fn split(bytes: &[u8], separator: u8) -> (r: (&[u8], &[u8]))
    ensures
        (r.0@, r.1@) == split_spec(bytes@, separator),
{
    let mut index: usize = 0;
    while index < bytes.len()
        invariant
            0 <= index <= bytes@.len(),
            forall|j: int| 0 <= j < index ==> bytes@[j] != separator,
        decreases bytes@.len() - index,
    {
        if bytes[index] == separator {
            proof {
                lemma_first_index(bytes@, separator, index as int);
            }
            return (slice_subrange(bytes, 0, index), slice_subrange(bytes, index + 1, bytes.len()));
        }
        index = index + 1;
    }
    proof {
        lemma_first_index(bytes@, separator, 0);
    }
    (slice_subrange(bytes, 0, 0), bytes)
}

/// The scheme prefix `http://` of an absolute-form URI.
pub open spec fn http_prefix() -> Seq<u8> {
    seq![104u8, 116u8, 116u8, 112u8, 58u8, 47u8, 47u8]
}

/// The slash that starts an absolute path.
pub const SLASH: u8 = 47;

/// The absolute path of the URI token `s`, or the empty sequence where `s` has none.
/// With the `http://` prefix the path is what follows the first `/` after a non-empty
/// host, that slash included; without it, `s` must itself start with `/`.
pub open spec fn abs_path_spec(s: Seq<u8>) -> Seq<u8> {
    if s.len() >= http_prefix().len() && s.subrange(0, http_prefix().len() as int)
        == http_prefix() {
        let after = s.subrange(http_prefix().len() as int, s.len() as int);
        let host = split_spec(after, SLASH).0;
        if after.len() == 0 || host.len() == 0 {
            Seq::empty()
        } else {
            s.subrange(http_prefix().len() + host.len() as int, s.len() as int)
        }
    } else if s.len() == 0 || s[0] != SLASH {
        Seq::empty()
    } else {
        s
    }
}

/// A request target as it was written, borrowed from the request buffer.
#[derive(Clone, Copy, Debug, PartialEq)]
pub struct Uri<'a> {
    bytes: &'a [u8],
}

impl<'a> View for Uri<'a> {
    type V = Seq<u8>;

    closed spec fn view(&self) -> Seq<u8> {
        self.bytes@
    }
}

impl<'a> Uri<'a> {
    /// A URI over `bytes`, taken as they are.
    pub fn new(bytes: &'a [u8]) -> (r: Self)
        ensures
            r@ == bytes@,
    {
        Uri { bytes }
    }

    /// The absolute path of the URI, in absolute form (`http://host[:port]/path`) or as
    /// an abs_path (`/path`). An empty result means that the host or the path is
    /// missing or invalid. The result is always a suffix of the URI's bytes.
    pub fn get_abs_path(&self) -> (r: &'a [u8])
        ensures
            r@ == abs_path_spec(self@),
            r@ == self@.subrange(self@.len() - r@.len(), self@.len() as int),
    {
        let prefix: &'static [u8; 7] = &[104u8, 116u8, 116u8, 112u8, 58u8, 47u8, 47u8];
        let prefix = prefix.as_slice();
        let len = self.bytes.len();
        if len >= prefix.len() && bytes_eq(slice_subrange(self.bytes, 0, prefix.len()), prefix) {
            if len == prefix.len() {
                return slice_subrange(self.bytes, len, len);
            }
            // The host, port included, runs from the end of the prefix to the next '/'.
            let (host, _) = split(slice_subrange(self.bytes, prefix.len(), len), SLASH);
            if host.len() == 0 {
                return slice_subrange(self.bytes, len, len);
            }
            let path_start = prefix.len() + host.len();
            slice_subrange(self.bytes, path_start, len)
        } else {
            if len == 0 || self.bytes[0] != SLASH {
                return slice_subrange(self.bytes, len, len);
            }
            self.bytes
        }
    }
}

/// Whether `b` is valid UTF-8: what `std::str::from_utf8` decides.
pub uninterp spec fn is_utf8(b: Seq<u8>) -> bool;

/// Relies on `std::str::from_utf8`: it succeeds exactly on valid UTF-8, which depends on
/// the bytes alone.
#[verifier::external_body]
fn utf8_valid(bytes: &[u8]) -> (r: bool)
    ensures
        r == is_utf8(bytes@),
{
    std::str::from_utf8(bytes).is_ok()
}

/// `v` without one trailing carriage return, which is removed only where `v` has more
/// than one byte.
pub open spec fn strip_cr(v: Seq<u8>) -> Seq<u8> {
    if v.len() > 1 && v.last() == CR {
        v.drop_last()
    } else {
        v
    }
}

/// The outcome of validating the tokens of a request line, in the order method, URI,
/// version: the URI and the version on success, else the first error met.
pub open spec fn tokens_spec(method: Seq<u8>, uri: Seq<u8>, uri_is_utf8: bool, version: Seq<u8>)
    -> Result<(Seq<u8>, Version), Error> {
    if method != method_bytes(Method::Get) {
        Err(Error::InvalidHttpMethod)
    } else if uri.len() == 0 || !uri_is_utf8 {
        Err(Error::InvalidUri)
    } else {
        match version_of(version) {
            Ok(v) => Ok((uri, v)),
            Err(e) => Err(e),
        }
    }
}

/// The method token of a request line.
pub open spec fn method_token(line: Seq<u8>) -> Seq<u8> {
    split_spec(line, SP).0
}

/// The URI token of a request line.
pub open spec fn uri_token(line: Seq<u8>) -> Seq<u8> {
    split_spec(split_spec(line, SP).1, SP).0
}

/// The version token of a request line, without its carriage return.
pub open spec fn version_token(line: Seq<u8>) -> Seq<u8> {
    strip_cr(split_spec(split_spec(split_spec(line, SP).1, SP).1, LF).0)
}

/// The outcome of parsing `line` as a request line.
pub open spec fn request_line_spec(line: Seq<u8>) -> Result<(Seq<u8>, Version), Error> {
    tokens_spec(method_token(line), uri_token(line), is_utf8(uri_token(line)), version_token(line))
}

/// The shortest request line that can be valid: the shortest method, a URI of one
/// byte, the shortest version and three separators.
pub open spec fn min_line_len() -> nat {
    method_bytes(Method::Get).len() + 1 + crate::common::version_bytes(Version::Http10).len() + 3
}

/// A validated request line: method, target URI and protocol version.
#[derive(Clone, Copy, Debug, PartialEq)]
pub struct RequestLine<'a> {
    method: Method,
    uri: Uri<'a>,
    http_version: Version,
}

impl<'a> View for RequestLine<'a> {
    type V = (Seq<u8>, Version);

    closed spec fn view(&self) -> (Seq<u8>, Version) {
        (self.uri@, self.http_version)
    }
}

/// What a parse gives, seen through the views.
pub open spec fn line_result_view(r: Result<RequestLine, Error>) -> Result<(Seq<u8>, Version), Error> {
    match r {
        Ok(l) => Ok(l@),
        Err(e) => Err(e),
    }
}

impl<'a> RequestLine<'a> {
    /// Every request line holds the method `GET` and a non-empty URI.
    #[verifier::type_invariant]
    spec fn inv(&self) -> bool {
        self.method == Method::Get && self.uri@.len() > 0
    }

    fn validate_method(method: &[u8]) -> (r: Result<(), Error>)
        ensures
            r == (if method@ == method_bytes(Method::Get) {
                Ok(())
            } else {
                Err(Error::InvalidHttpMethod)
            }),
    {
        if !bytes_eq(method, Method::Get.raw()) {
            return Err(Error::InvalidHttpMethod);
        }
        Ok(())
    }

    fn validate_uri(uri: &[u8], uri_is_utf8: bool) -> (r: Result<(), Error>)
        ensures
            r == (if uri@.len() == 0 || !uri_is_utf8 {
                Err(Error::InvalidUri)
            } else {
                Ok(())
            }),
    {
        if uri.len() == 0 {
            return Err(Error::InvalidUri);
        }
        if !uri_is_utf8 {
            return Err(Error::InvalidUri);
        }
        Ok(())
    }

    fn validate_version(version: &[u8]) -> (r: Result<(), Error>)
        ensures
            r == (if version_of(version@) is Ok {
                Ok(())
            } else {
                Err(Error::InvalidHttpVersion)
            }),
    {
        if !bytes_eq(version, Version::Http10.raw()) && !bytes_eq(version, Version::Http11.raw()) {
            return Err(Error::InvalidHttpVersion);
        }
        Ok(())
    }

    fn remove_trailing_cr(version: &[u8]) -> (r: &[u8])
        ensures
            r@ == strip_cr(version@),
    {
        if version.len() > 1 && version[version.len() - 1] == CR {
            return slice_subrange(version, 0, version.len() - 1);
        }
        version
    }

    /// Builds a request line from its three tokens, checked in the order method, URI,
    /// version; `uri_is_utf8` tells whether the URI token is valid UTF-8.
    pub fn from_tokens(method: &[u8], uri: &'a [u8], uri_is_utf8: bool, version: &[u8]) -> (r:
        Result<Self, Error>)
        ensures
            line_result_view(r) == tokens_spec(method@, uri@, uri_is_utf8, version@),
    {
        RequestLine::validate_method(method)?;
        RequestLine::validate_uri(uri, uri_is_utf8)?;
        RequestLine::validate_version(version)?;
        let http_version = match Version::try_from(version) {
            Ok(v) => v,
            Err(e) => {
                return Err(e);
            },
        };
        Ok(RequestLine { method: Method::Get, uri: Uri::new(uri), http_version })
    }

    /// Parses one request line, `METHOD SP URI SP VERSION [CR] LF`. The method must be
    /// `GET`, the URI non-empty UTF-8, the version `HTTP/1.0` or `HTTP/1.1`; the first
    /// token that fails decides the error.
    pub fn try_from(request_line: &'a [u8]) -> (r: Result<Self, Error>)
        ensures
            line_result_view(r) == request_line_spec(request_line@),
    {
        let (method, remaining_bytes) = split(request_line, SP);
        let (uri, remaining_bytes) = split(remaining_bytes, SP);
        let (version, _) = split(remaining_bytes, LF);
        // A version that ends with CR loses it.
        let version = RequestLine::remove_trailing_cr(version);
        let uri_is_utf8 = utf8_valid(uri);
        RequestLine::from_tokens(method, uri, uri_is_utf8, version)
    }

    /// The length of the shortest request line that can be valid.
    fn min_len() -> (r: usize)
        ensures
            r == min_line_len(),
    {
        Method::Get.raw().len() + 1 + Version::Http10.raw().len() + 3
    }

    /// The method of the request line.
    pub fn method(&self) -> (r: Method)
        ensures
            r == Method::Get,
    {
        proof {
            use_type_invariant(self);
        }
        self.method
    }

    /// The target URI of the request line.
    pub fn uri(&self) -> (r: &Uri<'a>)
        ensures
            r@ == self@.0,
    {
        &self.uri
    }

    /// The protocol version of the request line.
    pub fn http_version(&self) -> (r: Version)
        ensures
            r == self@.1,
    {
        self.http_version
    }
}

/// The outcome of parsing a whole request buffer: its first line, through the first line
/// feed, is parsed as a request line; a buffer whose line before that feed is shorter than
/// the shortest valid request line (or that holds no line feed) is malformed.
pub open spec fn request_spec(b: Seq<u8>) -> Result<(Seq<u8>, Version), Error> {
    let line = split_spec(b, LF).0;
    if line.len() < min_line_len() {
        Err(Error::InvalidRequest)
    } else {
        request_line_spec(b.subrange(0, line.len() + 1 as int))
    }
}

/// A parsed request. Header fields and body are not parsed: they stay empty.
#[derive(Clone, Copy, Debug, PartialEq)]
pub struct Request<'a> {
    request_line: RequestLine<'a>,
    headers: Headers,
    body: Option<Body>,
}

impl<'a> View for Request<'a> {
    type V = (Seq<u8>, Version);

    closed spec fn view(&self) -> (Seq<u8>, Version) {
        self.request_line@
    }
}

/// What a parse of a request gives, seen through the views.
pub open spec fn request_result_view(r: Result<Request, Error>) -> Result<(Seq<u8>, Version), Error> {
    match r {
        Ok(q) => Ok(q@),
        Err(e) => Err(e),
    }
}

impl<'a> Request<'a> {
    /// A request carries no body: the parser reads none.
    #[verifier::type_invariant]
    spec fn inv(&self) -> bool {
        self.body is None
    }

    /// Parses the request line at the start of `byte_stream`: `GET SP URI SP HTTP/1.x CRLF`.
    /// Whatever follows the first line feed (header fields, a body) is ignored.
    pub fn try_from(byte_stream: &'a [u8]) -> (r: Result<Self, Error>)
        ensures
            request_result_view(r) == request_spec(byte_stream@),
    {
        // The request line ends at the first LF.
        let (request_line, _) = split(byte_stream, LF);
        if request_line.len() < RequestLine::min_len() {
            return Err(Error::InvalidRequest);
        }
        proof {
            lemma_first_index(byte_stream@, LF, 0);
        }
        let line_len = request_line.len();
        assert(line_len < byte_stream.len());
        // The request line is handed over with its LF.
        let request_line = RequestLine::try_from(slice_subrange(byte_stream, 0, line_len + 1))?;
        Ok(Request { request_line, headers: Headers {}, body: None })
    }

    /// The target URI of the request.
    pub fn uri(&self) -> (r: &Uri<'a>)
        ensures
            r@ == self@.0,
    {
        &self.request_line.uri
    }

    /// The protocol version of the request.
    pub fn http_version(&self) -> (r: Version)
        ensures
            r == self@.1,
    {
        self.request_line.http_version
    }
}

/// Whatever follows the first line feed does not change the outcome: a buffer made of a
/// line that ends with its only line feed, followed by any bytes (header fields, a body),
/// parses as that line alone does. The line parses as a request line where it is long
/// enough, and is malformed where it is not.
pub proof fn lemma_trailing_bytes_ignored(line: Seq<u8>, rest: Seq<u8>)
    requires
        line.len() > 0,
        line.last() == LF,
        forall|j: int| 0 <= j < line.len() - 1 ==> line[j] != LF,
    ensures
        request_spec(line + rest) == request_spec(line),
        request_spec(line) == (if line.len() - 1 < min_line_len() {
            Err(Error::InvalidRequest)
        } else {
            request_line_spec(line)
        }),
{
    let b = line + rest;
    let k = line.len() - 1;
    assert(is_first_index(line, LF, k));
    assert(is_first_index(b, LF, k));
    lemma_first_index(line, LF, k);
    lemma_first_index(b, LF, k);
    assert(b.subrange(0, k + 1) =~= line);
    assert(line.subrange(0, k + 1) =~= line);
}

/// Parsing depends on the bytes alone: two parses of the same buffer, as a request or as
/// a request line, give equal outcomes.
pub proof fn lemma_parse_deterministic(
    b: Seq<u8>,
    r1: Result<Request, Error>,
    r2: Result<Request, Error>,
    l1: Result<RequestLine, Error>,
    l2: Result<RequestLine, Error>,
)
    requires
        request_result_view(r1) == request_spec(b),
        request_result_view(r2) == request_spec(b),
        line_result_view(l1) == request_line_spec(b),
        line_result_view(l2) == request_line_spec(b),
    ensures
        request_result_view(r1) == request_result_view(r2),
        line_result_view(l1) == line_result_view(l2),
{
}

} // verus!
