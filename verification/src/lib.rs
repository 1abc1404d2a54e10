//! A small model of HTTP/1.1 messages: parsing a complete request buffer into
//! a structured value, and rendering a structured response back to wire text.
//!
//! The library performs no I/O: a transport layer hands `Request::from_string`
//! a complete buffer and writes the string that `Response::to_string` returns.

pub mod error;
pub mod header;
pub mod method;
pub mod request;
pub mod response;
pub mod status;
pub mod strutil;
pub mod wire;

pub use error::Error;
pub use error::ErrorType;
pub use header::Header;
pub use method::Method;
pub use request::Path;
pub use request::Query;
pub use request::Request;
pub use response::Response;
pub use status::Status;
