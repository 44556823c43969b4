use crate::method::{method_of, Method, MethodError};
use crate::query_string::{decode_query, QueryModel, QueryString};
use crate::text::{around, bytes_of, find_byte, first_index, lemma_first_index, split_around, str_eq};
use vstd::prelude::*;
use vstd::utf8::valid_utf8;

verus! {

/// Ends a token of the request line.
pub const SPACE: u8 = 0x20;

/// Ends a token of the request line too.
pub const CARRIAGE_RETURN: u8 = 0x0d;

/// Starts the query component of a path.
pub const QUERY_MARK: u8 = 0x3f;

/// The only protocol accepted.
pub const PROTOCOL: &'static str = "HTTP/1.1";

/// Why a buffer is not a request.
#[derive(Clone, Copy, Debug, PartialEq, Eq, Structural)]
pub enum ParseError {
    InvalidRequest,
    InvalidEncoding,
    InvalidProtocol,
    InvalidMethod,
}

impl ParseError {
    /// The variant's name.
    pub open spec fn spec_message(self) -> Seq<char> {
        match self {
            ParseError::InvalidRequest => "InvalidRequest"@,
            ParseError::InvalidEncoding => "InvalidEncoding"@,
            ParseError::InvalidProtocol => "InvalidProtocol"@,
            ParseError::InvalidMethod => "InvalidMethod"@,
        }
    }

    /// The fixed text shown for the error: the variant's name.
    pub fn message(&self) -> (r: &'static str)
        ensures
            r@ == self.spec_message(),
    {
        match self {
            ParseError::InvalidRequest => "InvalidRequest",
            ParseError::InvalidEncoding => "InvalidEncoding",
            ParseError::InvalidProtocol => "InvalidProtocol",
            ParseError::InvalidMethod => "InvalidMethod",
        }
    }
}

/// Whether `b` ends a token of the request line.
pub open spec fn ends_word(b: u8) -> bool {
    b == SPACE || b == CARRIAGE_RETURN
}

/// `i` is the position of the first byte of `s` that ends a token.
pub open spec fn is_word_end(s: Seq<u8>, i: int) -> bool {
    &&& 0 <= i < s.len()
    &&& ends_word(s[i])
    &&& forall|k: int| 0 <= k < i ==> !ends_word(s[k])
}

/// The next token of `s` and what follows its delimiter; `None` when no
/// delimiter occurs.
pub open spec fn next_word(s: Seq<u8>) -> Option<(Seq<u8>, Seq<u8>)> {
    if exists|i: int| is_word_end(s, i) {
        Some(around(s, choose|i: int| is_word_end(s, i)))
    } else {
        None
    }
}

/// What a parsed request holds.
pub struct RequestModel {
    pub method: Method,
    pub path: Seq<u8>,
    pub query: Option<QueryModel>,
}

/// The request made of `method` and the path token `p`, whose query, if
/// any, follows the first `?`.
pub open spec fn request_of(method: Method, p: Seq<u8>) -> RequestModel {
    match first_index(p, QUERY_MARK) {
        Some(i) => RequestModel {
            method,
            path: p.subrange(0, i),
            query: Some(decode_query(p.subrange(i + 1, p.len() as int))),
        },
        None => RequestModel { method, path: p, query: None },
    }
}

/// What parsing the buffer `buf` gives.
pub open spec fn parse_request(buf: Seq<u8>) -> Result<RequestModel, ParseError> {
    if !valid_utf8(buf) {
        Err(ParseError::InvalidEncoding)
    } else {
        match next_word(buf) {
            None => Err(ParseError::InvalidRequest),
            Some((m, r1)) => match next_word(r1) {
                None => Err(ParseError::InvalidRequest),
                Some((p, r2)) => match next_word(r2) {
                    None => Err(ParseError::InvalidRequest),
                    Some((protocol, _)) => if protocol != bytes_of(PROTOCOL) {
                        Err(ParseError::InvalidProtocol)
                    } else {
                        match method_of(m) {
                            None => Err(ParseError::InvalidMethod),
                            Some(method) => Ok(request_of(method, p)),
                        }
                    },
                },
            },
        }
    }
}

proof fn lemma_word_end_unique(s: Seq<u8>, i: int)
    requires
        is_word_end(s, i),
    ensures
        next_word(s) == Some(around(s, i)),
{
    let j = choose|j: int| is_word_end(s, j);
    assert(!(j < i));
    assert(!(i < j));
}

/// Splits off the next token, ended by a space or a carriage return.
fn get_next_word(request: &str) -> (r: Option<(&str, &str)>)
    ensures
        match r {
            Some((w, rest)) => next_word(bytes_of(request)) == Some(
                (bytes_of(w), bytes_of(rest)),
            ),
            None => next_word(bytes_of(request)) is None,
        },
{
    let b = request.as_bytes();
    let mut i: usize = 0;
    while i < b.len()
        invariant
            b@ == bytes_of(request),
            i <= b@.len(),
            forall|k: int| 0 <= k < i ==> !ends_word(b@[k]),
        decreases b@.len() - i,
    {
        if b[i] == SPACE || b[i] == CARRIAGE_RETURN {
            proof {
                lemma_word_end_unique(b@, i as int);
            }
            return Some(split_around(request, i));
        }
        i = i + 1;
    }
    None
}

/// Relies on std::str::from_utf8: it accepts exactly the valid UTF-8
/// byte sequences, and the text it returns is made of those bytes.
#[verifier::external_body]
fn utf8_text<'a>(buf: &'a [u8]) -> (r: Option<&'a str>)
    ensures
        r is Some <==> valid_utf8(buf@),
        match r {
            Some(s) => bytes_of(s) == buf@,
            None => true,
        },
{
    std::str::from_utf8(buf).ok()
}

/// `r` is what parsing `buf` gives: the request `parse_request` describes,
/// or the error it names.
pub open spec fn parse_outcome<'buf>(buf: Seq<u8>, r: Result<Request<'buf>, ParseError>) -> bool {
    match r {
        Ok(req) => req.wf() && parse_request(buf) == Ok::<RequestModel, ParseError>(req@),
        Err(e) => parse_request(buf) == Err::<RequestModel, ParseError>(e),
    }
}

/// Parsing depends on the buffer alone: two parses of one buffer give
/// equal requests, or the same error.
pub proof fn lemma_parse_deterministic<'buf>(
    buf: Seq<u8>,
    a: Result<Request<'buf>, ParseError>,
    b: Result<Request<'buf>, ParseError>,
)
    requires
        parse_outcome(buf, a),
        parse_outcome(buf, b),
    ensures
        match (a, b) {
            (Ok(x), Ok(y)) => x@ == y@,
            (Err(e), Err(f)) => e == f,
            _ => false,
        },
{
}

/// A parsed request line: method, path, and the decoded query, if the path had one.
#[derive(Debug, PartialEq, Eq)]
pub struct Request<'buf> {
    path: &'buf str,
    query_string: Option<QueryString<'buf>>,
    method: Method,
}

impl<'buf> View for Request<'buf> {
    type V = RequestModel;

    closed spec fn view(&self) -> RequestModel {
        RequestModel {
            method: self.method,
            path: bytes_of(self.path),
            query: match self.query_string {
                Some(q) => Some(q@),
                None => None,
            },
        }
    }
}

impl<'buf> Request<'buf> {
    /// The query string, where there is one, is well formed.
    pub closed spec fn wf(&self) -> bool {
        match self.query_string {
            Some(q) => q.wf(),
            None => true,
        }
    }

    pub fn path(&self) -> (r: &str)
        ensures
            bytes_of(r) == self@.path,
    {
        self.path
    }

    pub fn method(&self) -> (r: &Method)
        ensures
            *r == self@.method,
    {
        &self.method
    }

    pub fn query_string(&self) -> (r: Option<&QueryString<'buf>>)
        requires
            self.wf(),
        ensures
            r is Some <==> self@.query is Some,
            match r {
                Some(q) => q.wf() && Some(q@) == self@.query,
                None => true,
            },
    {
        match &self.query_string {
            Some(q) => Some(q),
            None => None,
        }
    }

    /// Parses the request line at the start of `buf`: method, path and
    /// protocol, each ended by a space or a carriage return. The path is
    /// split at its first `?`, and what follows is decoded as a query.
    pub fn parse(buf: &'buf [u8]) -> (r: Result<Request<'buf>, ParseError>)
        ensures
            parse_outcome(buf@, r),
    {
        let request = match utf8_text(buf) {
            Some(s) => s,
            None => return Err(ParseError::InvalidEncoding),
        };
        let (method, request) = match get_next_word(request) {
            Some(w) => w,
            None => return Err(ParseError::InvalidRequest),
        };
        let (mut path, request) = match get_next_word(request) {
            Some(w) => w,
            None => return Err(ParseError::InvalidRequest),
        };
        let (protocol, _) = match get_next_word(request) {
            Some(w) => w,
            None => return Err(ParseError::InvalidRequest),
        };
        if !str_eq(protocol, PROTOCOL) {
            return Err(ParseError::InvalidProtocol);
        }
        let method = match Method::from_token(method) {
            Ok(m) => m,
            Err(e) => return Err(ParseError::from(e)),
        };
        let ghost p = bytes_of(path);
        let mut query_string = None;
        match find_byte(path.as_bytes(), QUERY_MARK) {
            Some(i) => {
                proof {
                    lemma_first_index(p, QUERY_MARK);
                }
                let (before, after) = split_around(path, i);
                query_string = Some(QueryString::decode(after));
                path = before;
            },
            None => {},
        }
        Ok(Request { path, query_string, method })
    }
}

impl From<MethodError> for ParseError {
    fn from(e: MethodError) -> (r: ParseError)
        ensures
            r == ParseError::InvalidMethod,
    {
        ParseError::InvalidMethod
    }
}

impl vstd::std_specs::convert::FromSpecImpl<MethodError> for ParseError {
    open spec fn obeys_from_spec() -> bool {
        true
    }

    open spec fn from_spec(e: MethodError) -> ParseError {
        ParseError::InvalidMethod
    }
}

} // verus!
