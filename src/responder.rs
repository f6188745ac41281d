//! The capability of turning a value into a response.
use vstd::prelude::*;
use crate::http::{Response, Status};

verus! {

/// A value that, when consumed, becomes either a finished [`Response`] or the
/// [`Status`] of a failure to report instead.
pub trait Responder: Sized {
    /// Consumes the value and produces its response, or the failing status.
    fn respond(self) -> Result<Response, Status>;

    /// The bytes that identify this value's content, for a value that can give
    /// them. Equal contents give equal bytes. A wrapper that tags its response
    /// with an entity tag reads them before it consumes the value; a value
    /// without this capability gives `None`, which is also the default.
    fn digest_input(&self) -> Option<Vec<u8>> {
        None
    }
}

/// A finished response responds with itself.
impl Responder for Response {
    fn respond(self) -> (r: Result<Response, Status>)
        ensures
            r == Ok::<Response, Status>(self),
    {
        Ok(self)
    }
}

} // verus!
