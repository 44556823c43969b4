use vstd::prelude::*;

verus! {

/// The response status codes this codec can emit.
#[derive(Clone, Copy, Debug, PartialEq, Eq, Structural)]
pub enum StatusCode {
    OK,
    BadRequest,
    NotFound,
}

impl StatusCode {
    /// The numeric code written on the status line.
    pub open spec fn spec_code(self) -> u16 {
        match self {
            StatusCode::OK => 200,
            StatusCode::BadRequest => 400,
            StatusCode::NotFound => 404,
        }
    }

    /// The reason phrase written after the numeric code.
    pub open spec fn spec_reason(self) -> Seq<char> {
        match self {
            StatusCode::OK => "OK"@,
            StatusCode::BadRequest => "BadRequest"@,
            StatusCode::NotFound => "NotFound"@,
        }
    }

    pub fn code(&self) -> (r: u16)
        ensures
            r == self.spec_code(),
    {
        match self {
            StatusCode::OK => 200,
            StatusCode::BadRequest => 400,
            StatusCode::NotFound => 404,
        }
    }

    pub fn reason_phrase(&self) -> (r: &'static str)
        ensures
            r@ == self.spec_reason(),
    {
        match self {
            StatusCode::OK => "OK",
            StatusCode::BadRequest => "BadRequest",
            StatusCode::NotFound => "NotFound",
        }
    }
}

} // verus!
