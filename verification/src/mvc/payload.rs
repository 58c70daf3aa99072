use vstd::prelude::*;
use crate::text::{opt_view, opt_str_copy};

verus! {

/// What a request says of one user: the room it belongs to, its id, and its position.
#[derive(Debug, Default, Clone)]
pub struct UserData {
    pub room_name: Option<String>,
    pub user_id: Option<String>,
    pub x: Option<u32>,
    pub y: Option<u32>,
}

/// The mathematical value of a `UserData`.
pub struct UserDataView {
    pub room_name: Option<Seq<char>>,
    pub user_id: Option<Seq<char>>,
    pub x: Option<u32>,
    pub y: Option<u32>,
}

impl View for UserData {
    type V = UserDataView;

    open spec fn view(&self) -> UserDataView {
        UserDataView {
            room_name: opt_view(self.room_name),
            user_id: opt_view(self.user_id),
            x: self.x,
            y: self.y,
        }
    }
}

impl UserData {
    /// A copy of this user, equal to it in every field.
    pub fn duplicate(&self) -> (r: UserData)
        ensures
            r@ == self@,
    {
        UserData {
            room_name: opt_str_copy(&self.room_name),
            user_id: opt_str_copy(&self.user_id),
            x: self.x,
            y: self.y,
        }
    }
}

} // verus!
