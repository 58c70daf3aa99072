use vstd::prelude::*;

verus! {

/// A request of a given type with an optional payload.
#[derive(Debug, Default)]
pub struct Request {
    pub req_type: Option<String>,
    pub payload: Option<String>,
}

} // verus!
