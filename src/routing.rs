use crate::method::Method;
use crate::request::ParseError;
use crate::response::Response;
use crate::status_code::StatusCode;
use crate::text::{bytes_of, str_eq};
use vstd::prelude::*;

verus! {

/// Where the answer to a request comes from.
#[derive(Clone, Copy, Debug, PartialEq, Eq)]
pub enum Route<'a> {
    /// A page of the public directory, answered with `OK` whether or not
    /// it could be read.
    Page(&'static str),
    /// A fixed body, answered with `OK`.
    Fixed(&'static str),
    /// The file that the path names: `OK` with its contents, or
    /// `NotFound` when it cannot be read.
    File(&'a str),
    /// Nothing answers the request.
    NotFound,
}

/// The route for a request with the given method and path.
pub open spec fn route_of<'a>(method: Method, path: &'a str) -> Route<'a> {
    if method != Method::GET {
        Route::NotFound
    } else if bytes_of(path) == bytes_of("/") {
        Route::Page("index.html")
    } else if bytes_of(path) == bytes_of("/hello") {
        Route::Page("hello.html")
    } else if bytes_of(path) == bytes_of("/hello2") {
        Route::Fixed("<h1>Hello</h1>")
    } else {
        Route::File(path)
    }
}

/// Picks the route for a request: only `GET` is answered; `/` and `/hello`
/// name pages, `/hello2` a fixed body, and any other path a file.
pub fn route<'a>(method: &Method, path: &'a str) -> (r: Route<'a>)
    ensures
        r == route_of(*method, path),
{
    match method {
        Method::GET => {
            if str_eq(path, "/") {
                Route::Page("index.html")
            } else if str_eq(path, "/hello") {
                Route::Page("hello.html")
            } else if str_eq(path, "/hello2") {
                Route::Fixed("<h1>Hello</h1>")
            } else {
                Route::File(path)
            }
        },
        _ => Route::NotFound,
    }
}

impl<'a> Route<'a> {
    /// The response for this route, given the contents of the file it
    /// names, where it names one and that file could be read.
    pub fn respond(&self, contents: Option<String>) -> (r: Response)
        ensures
            match *self {
                Route::Page(_) => r@ == (
                    StatusCode::OK,
                    match contents {
                        Some(c) => Some(c@),
                        None => None::<Seq<char>>,
                    },
                ),
                Route::Fixed(b) => r@ == (StatusCode::OK, Some(b@)),
                Route::File(_) => match contents {
                    Some(c) => r@ == (StatusCode::OK, Some(c@)),
                    None => r@ == (StatusCode::NotFound, None::<Seq<char>>),
                },
                Route::NotFound => r@ == (StatusCode::NotFound, None::<Seq<char>>),
            },
    {
        match self {
            Route::Page(_) => Response::new(StatusCode::OK, contents),
            Route::Fixed(b) => Response::new(StatusCode::OK, Some((*b).to_owned())),
            Route::File(_) => match contents {
                Some(c) => Response::new(StatusCode::OK, Some(c)),
                None => Response::new(StatusCode::NotFound, None),
            },
            Route::NotFound => Response::new(StatusCode::NotFound, None),
        }
    }
}

/// The response to a buffer that did not parse, whatever the error:
/// `BadRequest` with no body.
pub fn bad_request(_error: &ParseError) -> (r: Response)
    ensures
        r@ == (StatusCode::BadRequest, None::<Seq<char>>),
{
    Response::new(StatusCode::BadRequest, None)
}

} // verus!
