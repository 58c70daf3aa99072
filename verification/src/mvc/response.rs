use vstd::prelude::*;
use crate::mvc::header::Header;

verus! {

/// A response: its header and its payload.
pub struct Response {
    pub header: Header,
    pub payload: String,
}

/// The mathematical value of a `Response`.
pub struct ResponseView {
    pub header: Map<Seq<char>, Seq<char>>,
    pub payload: Seq<char>,
}

impl View for Response {
    type V = ResponseView;

    open spec fn view(&self) -> ResponseView {
        ResponseView { header: self.header@, payload: self.payload@ }
    }
}

impl Response {
    /// A response with an empty header and an empty payload.
    pub fn empty() -> (r: Response)
        ensures
            r@.header == Map::<Seq<char>, Seq<char>>::empty(),
            r@.payload == Seq::<char>::empty(),
    {
        proof {
            reveal_strlit("");
        }
        Response { header: Header::new(), payload: "".to_owned() }
    }
}

} // verus!
