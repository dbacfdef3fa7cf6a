use vstd::prelude::*;

verus! {

/// Space, the separator between the tokens of a request line.
pub const SP: u8 = 32;

/// Line feed, the end of a line.
pub const LF: u8 = 10;

/// Carriage return, which may stand before the line feed.
pub const CR: u8 = 13;

/// Why a request could not be parsed.
#[derive(Clone, Copy, Debug, PartialEq, Eq, Structural)]
pub enum Error {
    /// The method token is not one that is supported.
    InvalidHttpMethod,
    /// The URI token is empty or not valid UTF-8.
    InvalidUri,
    /// The version token is not one that is supported.
    InvalidHttpVersion,
    /// The buffer is shorter than the shortest valid request line.
    InvalidRequest,
}

impl Error {
    /// A short description of the error.
    pub fn message(&self) -> (r: &'static str) {
        match self {
            Error::InvalidHttpMethod => "Unsupported HTTP method.",
            Error::InvalidUri => "Invalid URI.",
            Error::InvalidHttpVersion => "Unsupported HTTP version.",
            Error::InvalidRequest => "Malformed HTTP request.",
        }
    }
}

/// The request methods that are supported.
#[derive(Clone, Copy, Debug, PartialEq, Eq, Structural)]
pub enum Method {
    Get,
}

/// The bytes that stand for a method in a request line.
pub open spec fn method_bytes(m: Method) -> Seq<u8> {
    match m {
        Method::Get => seq![71u8, 69u8, 84u8],
    }
}

impl Method {
    /// The canonical bytes of the method.
    pub fn raw(&self) -> (r: &'static [u8])
        ensures
            r@ == method_bytes(*self),
    {
        match self {
            Method::Get => {
                let a: &'static [u8; 3] = &[71u8, 69u8, 84u8];
                a.as_slice()
            }
        }
    }
}

/// The protocol versions that are supported.
#[derive(Clone, Copy, Debug, PartialEq, Eq, Structural)]
pub enum Version {
    Http10,
    Http11,
}

/// The bytes that stand for a version in a request line: `HTTP/1.0` and `HTTP/1.1`.
pub open spec fn version_bytes(v: Version) -> Seq<u8> {
    match v {
        Version::Http10 => seq![72u8, 84u8, 84u8, 80u8, 47u8, 49u8, 46u8, 48u8],
        Version::Http11 => seq![72u8, 84u8, 84u8, 80u8, 47u8, 49u8, 46u8, 49u8],
    }
}

/// The version whose canonical bytes are `b`, if any.
pub open spec fn version_of(b: Seq<u8>) -> Result<Version, Error> {
    if b == version_bytes(Version::Http10) {
        Ok(Version::Http10)
    } else if b == version_bytes(Version::Http11) {
        Ok(Version::Http11)
    } else {
        Err(Error::InvalidHttpVersion)
    }
}

impl Version {
    /// The canonical bytes of the version.
    pub fn raw(&self) -> (r: &'static [u8])
        ensures
            r@ == version_bytes(*self),
    {
        match self {
            Version::Http10 => {
                let a: &'static [u8; 8] = &[72u8, 84u8, 84u8, 80u8, 47u8, 49u8, 46u8, 48u8];
                a.as_slice()
            },
            Version::Http11 => {
                let a: &'static [u8; 8] = &[72u8, 84u8, 84u8, 80u8, 47u8, 49u8, 46u8, 49u8];
                a.as_slice()
            },
        }
    }

    /// The version written as `bytes`; any bytes but the two canonical forms are refused.
    pub fn try_from(bytes: &[u8]) -> (r: Result<Version, Error>)
        ensures
            r == version_of(bytes@),
    {
        if bytes_eq(bytes, Version::Http10.raw()) {
            Ok(Version::Http10)
        } else if bytes_eq(bytes, Version::Http11.raw()) {
            Ok(Version::Http11)
        } else {
            Err(Error::InvalidHttpVersion)
        }
    }
}

/// Whether `a` and `b` hold the same bytes.
pub fn bytes_eq(a: &[u8], b: &[u8]) -> (r: bool)
    ensures
        r == (a@ == b@),
{
    if a.len() != b.len() {
        return false;
    }
    let mut i: usize = 0;
    while i < a.len()
        invariant
            a@.len() == b@.len(),
            0 <= i <= a@.len(),
            forall|j: int| 0 <= j < i ==> a@[j] == b@[j],
        decreases a@.len() - i,
    {
        if a[i] != b[i] {
            return false;
        }
        i = i + 1;
    }
    assert(a@ =~= b@);
    true
}

/// Where the header fields of a request would be held; this parser reads none.
#[derive(Clone, Copy, Debug, Default, PartialEq, Eq)]
pub struct Headers {}

/// Where the body of a request would be held; this parser reads none.
#[derive(Clone, Copy, Debug, PartialEq, Eq)]
pub struct Body {}

} // verus!
