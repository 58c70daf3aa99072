use vstd::prelude::*;
use crate::model::room::{Room, RoomView};
use crate::mvc::header::Header;
use crate::mvc::payload::{UserData, UserDataView};

verus! {

/// A request: its header, its payload as text, and the payload decoded as each kind of value
/// that a controller may read from it (`None` where it does not decode as that kind).
pub struct Request {
    pub header: Header,
    pub payload: String,
    pub payload_room: Option<Room>,
    pub payload_user: Option<UserData>,
}

/// The mathematical value of a `Request`.
pub struct RequestView {
    pub header: Map<Seq<char>, Seq<char>>,
    pub payload: Seq<char>,
    pub payload_room: Option<RoomView>,
    pub payload_user: Option<UserDataView>,
}

impl View for Request {
    type V = RequestView;

    open spec fn view(&self) -> RequestView {
        RequestView {
            header: self.header@,
            payload: self.payload@,
            payload_room: match self.payload_room {
                Some(r) => Some(r@),
                None => None,
            },
            payload_user: match self.payload_user {
                Some(u) => Some(u@),
                None => None,
            },
        }
    }
}

impl Request {
    /// A request with the two request types set to empty strings, and nothing else.
    pub fn empty() -> (r: Request)
        ensures
            r@.header == map![
                "req_type1"@ => Seq::<char>::empty(),
                "req_type2"@ => Seq::<char>::empty(),
            ],
            r@.payload == Seq::<char>::empty(),
            r@.payload_room is None,
            r@.payload_user is None,
    {
        let mut map = Header::new();
        map.insert("req_type1".to_owned(), "".to_owned());
        map.insert("req_type2".to_owned(), "".to_owned());
        proof {
            reveal_strlit("");
            assert(""@ == Seq::<char>::empty());
            assert(map@ == Map::<Seq<char>, Seq<char>>::empty().insert("req_type1"@, ""@).insert("req_type2"@, ""@));
            assert(map@ =~= map![
                "req_type1"@ => Seq::<char>::empty(),
                "req_type2"@ => Seq::<char>::empty(),
            ]);
        }
        Request { header: map, payload: "".to_owned(), payload_room: None, payload_user: None }
    }
}

} // verus!
