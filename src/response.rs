use crate::status_code::StatusCode;
use crate::text::bytes_of;
use vstd::prelude::*;
use vstd::utf8::encode_utf8;

verus! {

/// The decimal digits of `n`, most significant first, with no leading zeros.
pub open spec fn decimal(n: nat) -> Seq<u8>
    decreases n,
{
    if n < 10 {
        seq![(0x30 + n) as u8]
    } else {
        decimal(n / 10).push((0x30 + n % 10) as u8)
    }
}

/// The bytes of a response with the given status and body:
/// `HTTP/1.1 <code> <reason>\r\nContent-Length: <len>\r\n\r\n <body>`.
pub open spec fn wire_format(status: StatusCode, body: Seq<u8>) -> Seq<u8> {
    bytes_of("HTTP/1.1 ") + decimal(status.spec_code() as nat) + bytes_of(" ") + encode_utf8(status.spec_reason()) + bytes_of("\r\nContent-Length: ") + decimal(body.len()) + bytes_of("\r\n\r\n ") + body
}

/// Appends the bytes of `b` to `out`.
fn append(out: &mut Vec<u8>, b: &[u8])
    ensures
        final(out)@ == old(out)@ + b@,
{
    let ghost start = out@;
    let mut i: usize = 0;
    while i < b.len()
        invariant
            i <= b@.len(),
            out@ == start + b@.subrange(0, i as int),
        decreases b@.len() - i,
    {
        out.push(b[i]);
        i = i + 1;
        proof {
            assert(out@ =~= start + b@.subrange(0, i as int));
        }
    }
    proof {
        assert(b@.subrange(0, i as int) =~= b@);
    }
}

/// Appends the decimal digits of `n` to `out`.
fn append_decimal(out: &mut Vec<u8>, n: usize)
    ensures
        final(out)@ == old(out)@ + decimal(n as nat),
    decreases n,
{
    if n >= 10 {
        append_decimal(out, n / 10);
    }
    let digit: u8 = (n % 10) as u8;
    out.push(0x30 + digit);
    proof {
        if n >= 10 {
            assert(old(out)@ + decimal(n as nat) =~= old(out)@ + decimal((n / 10) as nat) + seq![
                (0x30 + digit) as u8,
            ]);
        } else {
            assert(old(out)@ + decimal(n as nat) =~= old(out)@ + seq![(0x30 + digit) as u8]);
        }
    }
}

/// std::io::Error, the sink's failure, carried back to the caller unread.
#[verifier::external_type_specification]
#[verifier::external_body]
pub struct ExIoError(std::io::Error);

/// Relies on std::io::Write::write_all: hands every byte of `bytes` to the
/// sink, in order, and returns the sink's failure unchanged.
#[verifier::external_body]
fn write_all<W: std::io::Write>(sink: &mut W, bytes: &[u8]) -> std::io::Result<()> {
    sink.write_all(bytes)
}

/// A status code and an optional body, ready to be written out.
#[derive(Debug, PartialEq, Eq)]
pub struct Response {
    status_code: StatusCode,
    body: Option<String>,
}

impl View for Response {
    type V = (StatusCode, Option<Seq<char>>);

    closed spec fn view(&self) -> (StatusCode, Option<Seq<char>>) {
        (
            self.status_code,
            match self.body {
                Some(b) => Some(b@),
                None => None,
            },
        )
    }
}

/// The body that is written: the given one, or a single space.
pub open spec fn body_bytes(body: Option<Seq<char>>) -> Seq<u8> {
    match body {
        Some(b) => encode_utf8(b),
        None => bytes_of(" "),
    }
}

impl Response {
    pub fn new(status_code: StatusCode, body: Option<String>) -> (r: Response)
        ensures
            r@.0 == status_code,
            r@.1 == match body {
                Some(b) => Some(b@),
                None => None::<Seq<char>>,
            },
    {
        Response { status_code, body }
    }

    /// The exact bytes of the response on the wire.
    pub fn to_bytes(&self) -> (r: Vec<u8>)
        ensures
            r@ == wire_format(self@.0, body_bytes(self@.1)),
    {
        let body: &str = match &self.body {
            Some(b) => b.as_str(),
            None => " ",
        };
        let mut out: Vec<u8> = Vec::new();
        append(&mut out, "HTTP/1.1 ".as_bytes());
        append_decimal(&mut out, self.status_code.code() as usize);
        append(&mut out, " ".as_bytes());
        append(&mut out, self.status_code.reason_phrase().as_bytes());
        append(&mut out, "\r\nContent-Length: ".as_bytes());
        let b = body.as_bytes();
        append_decimal(&mut out, b.len());
        append(&mut out, "\r\n\r\n ".as_bytes());
        append(&mut out, b);
        out
    }

    /// Writes the response to `sink`: the bytes are those of `to_bytes`.
    /// A failure of the sink is returned unchanged.
    pub fn send<W: std::io::Write>(&self, sink: &mut W) -> std::io::Result<()> {
        let bytes = self.to_bytes();
        write_all(sink, bytes.as_slice())
    }
}

} // verus!
