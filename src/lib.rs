//! A minimal HTTP/1.1 codec: parses a request line, with its query string,
//! out of a byte buffer, and renders a status and body as response bytes.
mod method;
mod query_string;
mod request;
mod response;
mod routing;
mod status_code;
mod text;

pub use method::{Method, MethodError};
pub use query_string::{QueryString, Value};
pub use request::{ParseError, Request};
pub use response::Response;
pub use routing::{bad_request, route, Route};
pub use status_code::StatusCode;
