use crate::text::{bytes_of, str_eq};
use vstd::prelude::*;

verus! {

/// The request methods this codec recognises.
#[derive(Clone, Copy, Debug, PartialEq, Eq, Structural)]
pub enum Method {
    GET,
    DELETE,
    POST,
    PUT,
    HEAD,
    CONNECT,
    OPTIONS,
    TRACE,
    PATCH,
}

/// A token that names no known method.
#[derive(Clone, Copy, Debug, PartialEq, Eq, Structural)]
pub struct MethodError;

impl Method {
    /// The token that names the method on the request line.
    pub open spec fn spec_name(self) -> &'static str {
        match self {
            Method::GET => "GET",
            Method::DELETE => "DELETE",
            Method::POST => "POST",
            Method::PUT => "PUT",
            Method::HEAD => "HEAD",
            Method::CONNECT => "CONNECT",
            Method::OPTIONS => "OPTIONS",
            Method::TRACE => "TRACE",
            Method::PATCH => "PATCH",
        }
    }

    pub fn name(&self) -> (r: &'static str)
        ensures
            r == self.spec_name(),
    {
        match self {
            Method::GET => "GET",
            Method::DELETE => "DELETE",
            Method::POST => "POST",
            Method::PUT => "PUT",
            Method::HEAD => "HEAD",
            Method::CONNECT => "CONNECT",
            Method::OPTIONS => "OPTIONS",
            Method::TRACE => "TRACE",
            Method::PATCH => "PATCH",
        }
    }

    /// Parses a token by exact, case-sensitive match against the method names.
    pub fn from_token(t: &str) -> (r: Result<Method, MethodError>)
        ensures
            match method_of(bytes_of(t)) {
                Some(m) => r == Ok::<Method, MethodError>(m),
                None => r is Err,
            },
    {
        let all = [
            Method::GET,
            Method::DELETE,
            Method::POST,
            Method::PUT,
            Method::HEAD,
            Method::CONNECT,
            Method::OPTIONS,
            Method::TRACE,
            Method::PATCH,
        ];
        let mut i: usize = 0;
        while i < 9
            invariant
                all@ == all_methods(),
                i <= 9,
                method_of_from(bytes_of(t), 0) == method_of_from(bytes_of(t), i as int),
            decreases 9 - i,
        {
            if str_eq(t, all[i].name()) {
                return Ok(all[i]);
            }
            i = i + 1;
        }
        Err(MethodError)
    }
}

/// Every method, in the order they are tried against a token.
pub open spec fn all_methods() -> Seq<Method> {
    seq![
        Method::GET,
        Method::DELETE,
        Method::POST,
        Method::PUT,
        Method::HEAD,
        Method::CONNECT,
        Method::OPTIONS,
        Method::TRACE,
        Method::PATCH,
    ]
}

/// The first method from position `i` of `all_methods` whose name is `t`.
pub open spec fn method_of_from(t: Seq<u8>, i: int) -> Option<Method>
    decreases 9 - i,
{
    if i < 0 || i >= 9 {
        None
    } else if bytes_of(all_methods()[i].spec_name()) == t {
        Some(all_methods()[i])
    } else {
        method_of_from(t, i + 1)
    }
}

/// The method that the token `t` names, if any.
pub open spec fn method_of(t: Seq<u8>) -> Option<Method> {
    method_of_from(t, 0)
}

} // verus!
