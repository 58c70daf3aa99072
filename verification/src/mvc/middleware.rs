use vstd::prelude::*;
use crate::mvc::request::Request;

verus! {

/// A step that a request goes through before a controller acts on it.
pub trait Middleware {
    /// Reads and amends the request, or refuses it with an error.
    fn execute(&self, request: &mut Request) -> Result<(), String>;
}

} // verus!
