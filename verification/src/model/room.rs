use vstd::prelude::*;
use crate::mvc::payload::{UserData, UserDataView};
use crate::text::{opt_view, opt_str_eq, opt_str_copy, is_first_match, first_match, lemma_first_match};

verus! {

/// A room: its name, its password, and the users in it.
#[derive(Debug, Default)]
pub struct Room {
    pub name: Option<String>,
    pub password: Option<String>,
    pub users: Option<Vec<UserData>>,
}

/// The mathematical value of a `Room`.
pub struct RoomView {
    pub name: Option<Seq<char>>,
    pub password: Option<Seq<char>>,
    pub users: Option<Seq<UserDataView>>,
}

/// The views of a vector of users.
pub open spec fn users_view(users: Seq<UserData>) -> Seq<UserDataView> {
    users.map_values(|u: UserData| u@)
}

impl View for Room {
    type V = RoomView;

    open spec fn view(&self) -> RoomView {
        RoomView {
            name: opt_view(self.name),
            password: opt_view(self.password),
            users: match self.users {
                Some(v) => Some(users_view(v@)),
                None => None,
            },
        }
    }
}

/// Replacing one user replaces its view.
pub proof fn lemma_users_view_update()
    ensures
        forall|v: Seq<UserData>, i: int, x: UserData| 0 <= i < v.len() ==>
            #[trigger] users_view(v.update(i, x)) == users_view(v).update(i, x@),
{
    assert forall|v: Seq<UserData>, i: int, x: UserData| 0 <= i < v.len() implies
        #[trigger] users_view(v.update(i, x)) == users_view(v).update(i, x@) by {
        assert(users_view(v.update(i, x)) =~= users_view(v).update(i, x@));
    }
}

/// Removing or appending one user removes or appends its view.
pub proof fn lemma_users_view_remove_push()
    ensures
        forall|v: Seq<UserData>, i: int| 0 <= i < v.len() ==>
            #[trigger] users_view(v.remove(i)) == users_view(v).remove(i),
        forall|v: Seq<UserData>, x: UserData|
            #[trigger] users_view(v.push(x)) == users_view(v).push(x@),
{
    assert forall|v: Seq<UserData>, i: int| 0 <= i < v.len() implies
        #[trigger] users_view(v.remove(i)) == users_view(v).remove(i) by {
        assert(users_view(v.remove(i)) =~= users_view(v).remove(i));
    }
    assert forall|v: Seq<UserData>, x: UserData|
        #[trigger] users_view(v.push(x)) == users_view(v).push(x@) by {
        assert(users_view(v.push(x)) =~= users_view(v).push(x@));
    }
}

/// A user whose id is `id`.
pub open spec fn has_id(id: Option<Seq<char>>) -> spec_fn(UserDataView) -> bool {
    |u: UserDataView| u.user_id == id
}

/// The index of the first user whose id is that of `user`.
pub open spec fn find_index(users: Seq<UserDataView>, user: UserDataView) -> Option<int> {
    first_match(users, has_id(user.user_id))
}

/// A user that is to be removed on a request about `user`: one with its id, or one in its room.
pub open spec fn removable_by(user: UserDataView) -> spec_fn(UserDataView) -> bool {
    |u: UserDataView| u.user_id == user.user_id || u.room_name == user.room_name
}

impl RoomView {
    /// The room after a user is added, or the error that adding it gives.
    pub open spec fn spec_add_user(self, user: UserDataView) -> Result<RoomView, Seq<char>> {
        match self.users {
            Some(us) => Ok(RoomView { users: Some(us.push(user)), ..self }),
            None => Err("users is None"@),
        }
    }

    /// The room after the position of a user is updated, or the error that the update gives.
    pub open spec fn spec_update_user(self, user: UserDataView) -> Result<RoomView, Seq<char>> {
        if user.x is None {
            Err("user_data.x is None"@)
        } else if user.y is None {
            Err("user_data.y is None"@)
        } else {
            match self.users {
                None => Err("users is None"@),
                Some(us) => match find_index(us, user) {
                    None => Err("user not found"@),
                    Some(i) => Ok(RoomView {
                        users: Some(us.update(i, UserDataView { x: user.x, y: user.y, ..us[i] })),
                        ..self
                    }),
                },
            }
        }
    }

    /// The room after a user is removed, or the error that removing it gives.
    pub open spec fn spec_remove_user(self, user: UserDataView) -> Result<RoomView, Seq<char>> {
        if user.x is None {
            Err("user_data.x is None"@)
        } else if user.y is None {
            Err("user_data.y is None"@)
        } else {
            match self.users {
                None => Err("user not found :{:?}"@),
                Some(us) => match first_match(us, removable_by(user)) {
                    None => Err("user not found"@),
                    Some(i) => Ok(RoomView { users: Some(us.remove(i)), ..self }),
                },
            }
        }
    }
}

/// The first user that a request about `user` removes, if any.
fn position_of_removable(users: &Vec<UserData>, user: &UserData) -> (r: Option<usize>)
    ensures
        r matches Some(i) ==> Some(i as int) == first_match(users_view(users@), removable_by(user@)),
        r is None ==> first_match(users_view(users@), removable_by(user@)) is None,
{
    let ghost s = users_view(users@);
    let ghost p = removable_by(user@);
    proof { lemma_first_match(s, p); }
    let mut i: usize = 0;
    while i < users.len()
        invariant
            i <= users.len(),
            s == users_view(users@),
            p == removable_by(user@),
            forall|j: int| 0 <= j < i ==> !p(#[trigger] s[j]),
            forall|k: int| is_first_match(s, p, k) ==> first_match(s, p) == Some(k),
            first_match(s, p) is None <==> (forall|j: int| 0 <= j < s.len() ==> !p(#[trigger] s[j])),
        decreases users.len() - i,
    {
        if opt_str_eq(&users[i].user_id, &user.user_id) || opt_str_eq(&users[i].room_name, &user.room_name) {
            assert(is_first_match(s, p, i as int));
            return Some(i);
        }
        i += 1;
    }
    None
}

/// The first user whose id is `id`, if any.
fn position_of_id(users: &Vec<UserData>, id: &Option<String>) -> (r: Option<usize>)
    ensures
        r matches Some(i) ==> Some(i as int) == first_match(users_view(users@), has_id(opt_view(*id))),
        r is None ==> first_match(users_view(users@), has_id(opt_view(*id))) is None,
{
    let ghost s = users_view(users@);
    let ghost p = has_id(opt_view(*id));
    proof { lemma_first_match(s, p); }
    let mut i: usize = 0;
    while i < users.len()
        invariant
            i <= users.len(),
            s == users_view(users@),
            p == has_id(opt_view(*id)),
            forall|j: int| 0 <= j < i ==> !p(#[trigger] s[j]),
            forall|k: int| is_first_match(s, p, k) ==> first_match(s, p) == Some(k),
            first_match(s, p) is None <==> (forall|j: int| 0 <= j < s.len() ==> !p(#[trigger] s[j])),
        decreases users.len() - i,
    {
        if opt_str_eq(&users[i].user_id, id) {
            assert(is_first_match(s, p, i as int));
            return Some(i);
        }
        i += 1;
    }
    None
}

impl Room {
    /// A copy of this room, equal to it in every field.
    pub fn duplicate(&self) -> (r: Room)
        ensures
            r@ == self@,
    {
        let users = match &self.users {
            Some(us) => {
                let mut copy: Vec<UserData> = Vec::new();
                let mut i: usize = 0;
                while i < us.len()
                    invariant
                        i <= us.len(),
                        users_view(copy@) =~= users_view(us@).take(i as int),
                    decreases us.len() - i,
                {
                    proof { lemma_users_view_remove_push(); }
                    copy.push(us[i].duplicate());
                    assert(users_view(us@).take(i + 1) =~= users_view(us@).take(i as int).push(us@[i as int]@));
                    i += 1;
                }
                assert(users_view(us@).take(us.len() as int) =~= users_view(us@));
                Some(copy)
            },
            None => None,
        };
        Room { name: opt_str_copy(&self.name), password: opt_str_copy(&self.password), users }
    }

    /// Finds the first user of the room whose id is that of `user_data`.
    pub fn find_user<'a>(&'a mut self, user_data: &UserData) -> (r: Result<&'a mut UserData, &'a str>)
        ensures
            match old(self)@.users {
                None => r matches Err(e) && e@ == "users is None"@ && final(self)@ == old(self)@,
                Some(us) => match find_index(us, user_data@) {
                    None => r matches Err(e) && e@ == "user not found"@ && final(self)@ == old(self)@,
                    Some(i) => r matches Ok(u) && (*u)@ == us[i] && final(self)@ == (RoomView {
                        users: Some(us.update(i, (*final(u))@)),
                        ..old(self)@
                    }),
                },
            },
    {
        match &mut self.users {
            Some(users) => {
                match position_of_id(users, &user_data.user_id) {
                    Some(i) => {
                        proof { lemma_users_view_update(); }
                        Ok(&mut users[i])
                    },
                    None => Err("user not found"),
                }
            },
            None => Err("users is None"),
        }
    }

    /// Adds a user at the end of the room's users.
    pub fn add_user(&mut self, user_data: UserData) -> (r: Result<(), &str>)
        ensures
            match (r, old(self)@.spec_add_user(user_data@)) {
                (Ok(()), Ok(v)) => final(self)@ == v,
                (Err(e), Err(m)) => e@ == m && final(self)@ == old(self)@,
                _ => false,
            },
    {
        match &mut self.users {
            Some(users) => {
                proof { lemma_users_view_remove_push(); }
                users.push(user_data);
                Ok(())
            },
            None => Err("users is None"),
        }
    }

    /// Sets the position of the first user with the id of `user_data` to the position it gives.
    pub fn update_user(&mut self, user_data: &UserData) -> (r: Result<(), &str>)
        ensures
            match (r, old(self)@.spec_update_user(user_data@)) {
                (Ok(()), Ok(v)) => final(self)@ == v,
                (Err(e), Err(m)) => e@ == m && final(self)@ == old(self)@,
                _ => false,
            },
    {
        if user_data.x.is_none() {
            return Err("user_data.x is None");
        } else if user_data.y.is_none() {
            return Err("user_data.y is None");
        }
        match self.find_user(user_data) {
            Ok(user) => {
                user.x = user_data.x;
                user.y = user_data.y;
                Ok(())
            },
            Err(e) => Err(e),
        }
    }

    /// Removes the first user that has the id of `user_data` or is in its room.
    pub fn remove_user(&mut self, user_data: &UserData) -> (r: Result<(), &str>)
        ensures
            match (r, old(self)@.spec_remove_user(user_data@)) {
                (Ok(()), Ok(v)) => final(self)@ == v,
                (Err(e), Err(m)) => e@ == m && final(self)@ == old(self)@,
                _ => false,
            },
    {
        if user_data.x.is_none() {
            return Err("user_data.x is None");
        } else if user_data.y.is_none() {
            return Err("user_data.y is None");
        }
        match &mut self.users {
            Some(users) => {
                match position_of_removable(users, user_data) {
                    Some(idx) => {
                        proof { lemma_users_view_remove_push(); }
                        users.remove(idx);
                    },
                    None => {
                        return Err("user not found");
                    },
                }
                Ok(())
            },
            None => Err("user not found :{:?}"),
        }
    }
}

/// Removing a user right after adding it gives the room back, where the room had no user that
/// a request about it would remove first and the request gives a position.
pub proof fn lemma_remove_undoes_add(room: RoomView, user: UserDataView)
    requires
        room.users is Some,
        user.x is Some,
        user.y is Some,
        forall|i: int| 0 <= i < room.users->0.len() ==> !removable_by(user)(#[trigger] room.users->0[i]),
    ensures
        room.spec_add_user(user) matches Ok(added) && added.spec_remove_user(user) == Ok::<RoomView, Seq<char>>(room),
{
    let us = room.users->0;
    let added = RoomView { users: Some(us.push(user)), ..room };
    assert(is_first_match(us.push(user), removable_by(user), us.len() as int));
    lemma_first_match(us.push(user), removable_by(user));
    assert(us.push(user).remove(us.len() as int) =~= us);
}

/// Updating a user changes only its position: the room keeps its name, its password and its
/// number of users, and the user found by the id then holds the given position.
pub proof fn lemma_update_moves_only_the_user(room: RoomView, user: UserDataView)
    requires
        room.spec_update_user(user) is Ok,
    ensures
        ({
            let after = room.spec_update_user(user)->Ok_0;
            let i = find_index(room.users->0, user)->0;
            &&& after.name == room.name
            &&& after.password == room.password
            &&& after.users->0.len() == room.users->0.len()
            &&& after.users->0[i].x == user.x
            &&& after.users->0[i].y == user.y
            &&& after.users->0[i].user_id == room.users->0[i].user_id
            &&& after.users->0[i].room_name == room.users->0[i].room_name
            &&& forall|j: int| 0 <= j < room.users->0.len() && j != i ==> after.users->0[j] == room.users->0[j]
        }),
{
    lemma_first_match(room.users->0, has_id(user.user_id));
}

/// Adding a user to a room with a list of users appends it, unchanged in every field, after the
/// users it had, and keeps the room's name and password; a room without a list refuses it.
pub proof fn lemma_add_appends(room: RoomView, user: UserDataView)
    ensures
        room.users is None ==> room.spec_add_user(user) == Err::<RoomView, Seq<char>>("users is None"@),
        room.users is Some ==> room.spec_add_user(user) is Ok && ({
            let us = room.users->0;
            let after = room.spec_add_user(user)->Ok_0;
            &&& after.name == room.name
            &&& after.password == room.password
            &&& after.users is Some
            &&& after.users->0.len() == us.len() + 1
            &&& after.users->0[us.len() as int] == user
            &&& forall|j: int| 0 <= j < us.len() ==> after.users->0[j] == us[j]
        }),
{
}

/// An update refuses a payload without a position, a room without a list of users, and an id
/// that no user has; otherwise it succeeds, whatever position the user held, and sets the
/// position of the first user with that id, leaving everything else as it was.
pub proof fn lemma_update_outcome(room: RoomView, user: UserDataView)
    ensures
        user.x is None ==> room.spec_update_user(user) == Err::<RoomView, Seq<char>>("user_data.x is None"@),
        user.x is Some && user.y is None ==> room.spec_update_user(user) == Err::<RoomView, Seq<char>>(
            "user_data.y is None"@,
        ),
        user.x is Some && user.y is Some && room.users is None ==> room.spec_update_user(user) == Err::<
            RoomView,
            Seq<char>,
        >("users is None"@),
        user.x is Some && user.y is Some && room.users is Some && (forall|j: int|
            0 <= j < room.users->0.len() ==> room.users->0[j].user_id != user.user_id) ==> room.spec_update_user(user)
            == Err::<RoomView, Seq<char>>("user not found"@),
        forall|i: int|
            user.x is Some && user.y is Some && room.users is Some && 0 <= i < room.users->0.len()
                && room.users->0[i].user_id == user.user_id && (forall|k: int|
                0 <= k < i ==> room.users->0[k].user_id != user.user_id) ==> room.spec_update_user(user) is Ok && ({
                let us = room.users->0;
                let after = room.spec_update_user(user)->Ok_0;
                &&& after.name == room.name
                &&& after.password == room.password
                &&& after.users is Some
                &&& after.users->0.len() == us.len()
                &&& after.users->0[i] == (UserDataView { x: user.x, y: user.y, ..us[i] })
                &&& forall|j: int| 0 <= j < us.len() && j != i ==> after.users->0[j] == us[j]
            }),
{
    if let Some(us) = room.users {
        let p = has_id(user.user_id);
        lemma_first_match(us, p);
        assert forall|i: int|
            0 <= i < us.len() && us[i].user_id == user.user_id && (forall|k: int|
                0 <= k < i ==> us[k].user_id != user.user_id) implies find_index(us, user) == Some(i) by {
            assert forall|k: int| 0 <= k < i implies !p(#[trigger] us[k]) by {}
            assert(is_first_match(us, p, i));
        }
        if forall|j: int| 0 <= j < us.len() ==> us[j].user_id != user.user_id {
            assert forall|j: int| 0 <= j < us.len() implies !p(#[trigger] us[j]) by {}
        }
    }
}

/// A removal refuses a payload without a position, a room without a list of users, and a
/// payload that no user shares its id or room with; otherwise it takes out the first user that
/// has its id or is in its room, and keeps the others in their order.
pub proof fn lemma_remove_outcome(room: RoomView, user: UserDataView)
    ensures
        user.x is None ==> room.spec_remove_user(user) == Err::<RoomView, Seq<char>>("user_data.x is None"@),
        user.x is Some && user.y is None ==> room.spec_remove_user(user) == Err::<RoomView, Seq<char>>(
            "user_data.y is None"@,
        ),
        user.x is Some && user.y is Some && room.users is None ==> room.spec_remove_user(user) == Err::<
            RoomView,
            Seq<char>,
        >("user not found :{:?}"@),
        user.x is Some && user.y is Some && room.users is Some && (forall|j: int|
            0 <= j < room.users->0.len() ==> room.users->0[j].user_id != user.user_id
                && room.users->0[j].room_name != user.room_name) ==> room.spec_remove_user(user) == Err::<
            RoomView,
            Seq<char>,
        >("user not found"@),
        forall|i: int|
            user.x is Some && user.y is Some && room.users is Some && 0 <= i < room.users->0.len() && (
            room.users->0[i].user_id == user.user_id || room.users->0[i].room_name == user.room_name) && (forall|
                k: int,
            |
                0 <= k < i ==> room.users->0[k].user_id != user.user_id && room.users->0[k].room_name
                    != user.room_name) ==> room.spec_remove_user(user) is Ok && ({
                let us = room.users->0;
                let after = room.spec_remove_user(user)->Ok_0;
                &&& after.name == room.name
                &&& after.password == room.password
                &&& after.users is Some
                &&& after.users->0.len() == us.len() - 1
                &&& forall|j: int| 0 <= j < i ==> after.users->0[j] == us[j]
                &&& forall|j: int| i < j < us.len() ==> after.users->0[j - 1] == us[j]
            }),
{
    if let Some(us) = room.users {
        let p = removable_by(user);
        lemma_first_match(us, p);
        if user.x is Some && user.y is Some {
            assert forall|i: int|
                0 <= i < us.len() && (us[i].user_id == user.user_id || us[i].room_name == user.room_name) && (
                forall|k: int|
                    0 <= k < i ==> us[k].user_id != user.user_id && us[k].room_name != user.room_name) implies
                room.spec_remove_user(user) is Ok && ({
                let after = room.spec_remove_user(user)->Ok_0;
                &&& after.name == room.name
                &&& after.password == room.password
                &&& after.users is Some
                &&& after.users->0.len() == us.len() - 1
                &&& forall|j: int| 0 <= j < i ==> after.users->0[j] == us[j]
                &&& forall|j: int| i < j < us.len() ==> after.users->0[j - 1] == us[j]
            }) by {
                assert forall|k: int| 0 <= k < i implies !p(#[trigger] us[k]) by {}
                assert(is_first_match(us, p, i));
                assert(first_match(us, p) == Some(i));
                let v = us.remove(i);
                assert(room.spec_remove_user(user) == Ok::<RoomView, Seq<char>>(RoomView { users: Some(v), ..room }));
            }
        }
        if forall|j: int|
            0 <= j < us.len() ==> us[j].user_id != user.user_id && us[j].room_name != user.room_name {
            assert forall|j: int| 0 <= j < us.len() implies !p(#[trigger] us[j]) by {}
        }
    }
}

} // verus!
