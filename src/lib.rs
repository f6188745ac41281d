//! Status-code wrappers that compose with responders to build HTTP responses.
//!
//! A [`Responder`] turns itself, when consumed, into either a finished
//! [`Response`] or a failing [`Status`]. The wrappers of [`status`] fix the
//! status code of the final response, add the headers that go with it, and
//! hand the rest of the work to an optional nested responder.
use vstd::prelude::*;

pub mod etag;
pub mod http;
pub mod responder;
pub mod status;

pub use http::{Header, Response, ResponseBuilder, Status};
pub use responder::Responder;
pub use status::{Accepted, Created, Custom, NoContent, Reset};

verus! {

} // verus!
