use vstd::prelude::*;
use crate::model::room::{Room, RoomView};
use crate::model::room_json::{rooms_to_json, rooms_json};
use crate::mvc::payload::{UserData, UserDataView};
use crate::text::{opt_view, opt_str_eq, is_first_match, first_match, lemma_first_match};

verus! {

/// The views of a vector of rooms.
pub open spec fn rooms_view(rooms: Seq<Room>) -> Seq<RoomView> {
    rooms.map_values(|r: Room| r@)
}

/// What the room manager keeps of its rooms: no two have the same name, and each has a list
/// of users.
pub open spec fn rooms_wf(rooms: Seq<RoomView>) -> bool {
    &&& forall|i: int, j: int|
        0 <= i < rooms.len() && 0 <= j < rooms.len() && i != j ==> #[trigger] rooms[i].name != #[trigger] rooms[j].name
    &&& forall|i: int| 0 <= i < rooms.len() ==> (#[trigger] rooms[i]).users is Some
}

/// A room whose name is `name`.
pub open spec fn named(name: Option<Seq<char>>) -> spec_fn(RoomView) -> bool {
    |r: RoomView| r.name == name
}

/// The room as the manager stores it: with an empty list of users where it had none.
pub open spec fn with_users(room: RoomView) -> RoomView {
    match room.users {
        Some(_) => room,
        None => RoomView { users: Some(Seq::empty()), ..room },
    }
}

/// The rooms after a room is created from a request, or the error that the request gives.
/// `room` is the payload decoded as a room, `None` when it does not decode.
pub open spec fn spec_create_room(rooms: Seq<RoomView>, room: Option<RoomView>) -> Result<Seq<RoomView>, Seq<char>> {
    match room {
        None => Err("json serialize failed"@),
        Some(r) => if first_match(rooms, named(r.name)) is Some {
            Err("duplicate room name"@)
        } else {
            Ok(rooms.push(with_users(r)))
        },
    }
}

/// The rooms after `op` is applied to the room that `user` names, or the error this gives.
/// `user` is the payload decoded as a user, `None` when it does not decode.
pub open spec fn spec_in_room(
    rooms: Seq<RoomView>,
    user: Option<UserDataView>,
    op: spec_fn(RoomView, UserDataView) -> Result<RoomView, Seq<char>>,
) -> Result<Seq<RoomView>, Seq<char>> {
    match user {
        None => Err("json serialize failed"@),
        Some(u) => match first_match(rooms, named(u.room_name)) {
            None => Err("room not found : {:?}"@),
            Some(i) => match op(rooms[i], u) {
                Ok(room) => Ok(rooms.update(i, room)),
                Err(m) => Err(m),
            },
        },
    }
}

/// The rooms after a room creation, and its answer: the rooms as JSON, or an error.
pub open spec fn create_outcome(rooms: Seq<RoomView>, room: Option<RoomView>) -> (Seq<RoomView>, Result<Seq<char>, Seq<char>>) {
    match spec_create_room(rooms, room) {
        Err(m) => (rooms, Err(m)),
        Ok(v) => (v, Ok(rooms_json(v))),
    }
}

/// The rooms after `op` is applied to the room that `user` names, and its answer: nothing, or
/// an error.
pub open spec fn user_outcome(
    rooms: Seq<RoomView>,
    user: Option<UserDataView>,
    op: spec_fn(RoomView, UserDataView) -> Result<RoomView, Seq<char>>,
) -> (Seq<RoomView>, Result<(), Seq<char>>) {
    match spec_in_room(rooms, user, op) {
        Err(m) => (rooms, Err(m)),
        Ok(v) => (v, Ok(())),
    }
}

/// Adding a user to a room.
pub open spec fn add_op() -> spec_fn(RoomView, UserDataView) -> Result<RoomView, Seq<char>> {
    |r: RoomView, u: UserDataView| r.spec_add_user(u)
}

/// Updating the position of a user of a room.
pub open spec fn update_op() -> spec_fn(RoomView, UserDataView) -> Result<RoomView, Seq<char>> {
    |r: RoomView, u: UserDataView| r.spec_update_user(u)
}

/// Removing a user from a room.
pub open spec fn remove_op() -> spec_fn(RoomView, UserDataView) -> Result<RoomView, Seq<char>> {
    |r: RoomView, u: UserDataView| r.spec_remove_user(u)
}

/// Replacing or appending one room replaces or appends its view.
proof fn lemma_rooms_view_update_push()
    ensures
        forall|v: Seq<Room>, i: int, x: Room| 0 <= i < v.len() ==>
            #[trigger] rooms_view(v.update(i, x)) == rooms_view(v).update(i, x@),
        forall|v: Seq<Room>, x: Room| #[trigger] rooms_view(v.push(x)) == rooms_view(v).push(x@),
{
    assert forall|v: Seq<Room>, i: int, x: Room| 0 <= i < v.len() implies
        #[trigger] rooms_view(v.update(i, x)) == rooms_view(v).update(i, x@) by {
        assert(rooms_view(v.update(i, x)) =~= rooms_view(v).update(i, x@));
    }
    assert forall|v: Seq<Room>, x: Room| #[trigger] rooms_view(v.push(x)) == rooms_view(v).push(x@) by {
        assert(rooms_view(v.push(x)) =~= rooms_view(v).push(x@));
    }
}

/// The first room named `name`, if any.
fn position_of_room(rooms: &Vec<Room>, name: &Option<String>) -> (r: Option<usize>)
    ensures
        r matches Some(i) ==> Some(i as int) == first_match(rooms_view(rooms@), named(opt_view(*name))),
        r is None ==> first_match(rooms_view(rooms@), named(opt_view(*name))) is None,
{
    let ghost s = rooms_view(rooms@);
    let ghost p = named(opt_view(*name));
    proof { lemma_first_match(s, p); }
    let mut i: usize = 0;
    while i < rooms.len()
        invariant
            i <= rooms.len(),
            s == rooms_view(rooms@),
            p == named(opt_view(*name)),
            forall|j: int| 0 <= j < i ==> !p(#[trigger] s[j]),
            forall|k: int| is_first_match(s, p, k) ==> first_match(s, p) == Some(k),
            first_match(s, p) is None <==> (forall|j: int| 0 <= j < s.len() ==> !p(#[trigger] s[j])),
        decreases rooms.len() - i,
    {
        if opt_str_eq(&rooms[i].name, name) {
            assert(is_first_match(s, p, i as int));
            return Some(i);
        }
        i += 1;
    }
    None
}

/// The rooms of the server.
pub struct RoomManager {
    rooms: Vec<Room>,
}

impl View for RoomManager {
    type V = Seq<RoomView>;

    closed spec fn view(&self) -> Seq<RoomView> {
        rooms_view(self.rooms@)
    }
}

impl RoomManager {
    #[verifier::type_invariant]
    spec fn inv(self) -> bool {
        rooms_wf(rooms_view(self.rooms@))
    }

    /// A manager with no rooms.
    pub fn new() -> (r: RoomManager)
        ensures
            r@ == Seq::<RoomView>::empty(),
            rooms_wf(r@),
    {
        let r = RoomManager { rooms: Vec::new() };
        assert(rooms_view(r.rooms@) =~= Seq::<RoomView>::empty());
        r
    }

    /// Adds the room that the payload decodes to, unless a room of its name exists, and
    /// answers with all rooms as JSON.
    pub fn create_room(&mut self, room: Option<Room>) -> (r: Result<String, String>)
        ensures
            rooms_wf(final(self)@),
            create_outcome(old(self)@, match room { Some(x) => Some(x@), None => None }) == (final(self)@, match r {
                Ok(j) => Ok(j@),
                Err(e) => Err(e@),
            }),
            match spec_create_room(old(self)@, match room { Some(x) => Some(x@), None => None }) {
                Err(m) => r matches Err(e) && e@ == m && final(self)@ == old(self)@,
                Ok(v) => final(self)@ == v && (r matches Ok(j) && j@ == rooms_json(v)),
            },
    {
        proof { use_type_invariant(&*self); }
        let mut room = match room {
            Some(x) => x,
            None => return Err("json serialize failed".to_owned()),
        };
        if room.users.is_none() {
            room.users = Some(Vec::new());
            assert(room@.users->0 =~= Seq::<UserDataView>::empty());
        }
        if position_of_room(&self.rooms, &room.name).is_some() {
            return Err("duplicate room name".to_owned());
        }
        proof {
            lemma_rooms_view_update_push();
            lemma_first_match(rooms_view(self.rooms@), named(room@.name));
        }
        let mut rooms = Vec::new();
        std::mem::swap(&mut rooms, &mut self.rooms);
        rooms.push(room);
        self.rooms = rooms;
        Ok(rooms_to_json(&self.rooms))
    }

    /// Adds the user that the payload decodes to, at the end of the users of the room it names.
    pub fn add_user(&mut self, user_data: Option<UserData>) -> (r: Result<(), String>)
        ensures
            rooms_wf(final(self)@),
            user_outcome(old(self)@, match user_data { Some(u) => Some(u@), None => None }, add_op()) == (final(self)@, match r {
                Ok(()) => Ok(()),
                Err(e) => Err(e@),
            }),
            match (r, spec_in_room(old(self)@, match user_data { Some(u) => Some(u@), None => None }, add_op())) {
                (Ok(()), Ok(v)) => final(self)@ == v,
                (Err(e), Err(m)) => e@ == m && final(self)@ == old(self)@,
                _ => false,
            },
    {
        proof { use_type_invariant(&*self); }
        let ud = match user_data {
            Some(u) => u,
            None => return Err("json serialize failed".to_owned()),
        };
        let i = match position_of_room(&self.rooms, &ud.room_name) {
            Some(i) => i,
            None => return Err("room not found : {:?}".to_owned()),
        };
        proof {
            lemma_rooms_view_update_push();
            lemma_first_match(rooms_view(self.rooms@), named(ud@.room_name));
        }
        let mut rooms = Vec::new();
        std::mem::swap(&mut rooms, &mut self.rooms);
        let res = match rooms[i].add_user(ud) {
            Ok(()) => Ok(()),
            Err(e) => Err(e.to_owned()),
        };
        self.rooms = rooms;
        res
    }

    /// Sets the position of the user that the payload decodes to, in the room it names.
    pub fn update_user(&mut self, user_data: Option<&UserData>) -> (r: Result<(), String>)
        ensures
            rooms_wf(final(self)@),
            user_outcome(old(self)@, match user_data { Some(u) => Some(u@), None => None }, update_op()) == (final(self)@, match r {
                Ok(()) => Ok(()),
                Err(e) => Err(e@),
            }),
            match (r, spec_in_room(old(self)@, match user_data { Some(u) => Some(u@), None => None }, update_op())) {
                (Ok(()), Ok(v)) => final(self)@ == v,
                (Err(e), Err(m)) => e@ == m && final(self)@ == old(self)@,
                _ => false,
            },
    {
        proof { use_type_invariant(&*self); }
        let ud = match user_data {
            Some(u) => u,
            None => return Err("json serialize failed".to_owned()),
        };
        let i = match position_of_room(&self.rooms, &ud.room_name) {
            Some(i) => i,
            None => return Err("room not found : {:?}".to_owned()),
        };
        proof {
            lemma_rooms_view_update_push();
            lemma_first_match(rooms_view(self.rooms@), named(ud@.room_name));
        }
        let mut rooms = Vec::new();
        std::mem::swap(&mut rooms, &mut self.rooms);
        let res = match rooms[i].update_user(ud) {
            Ok(()) => Ok(()),
            Err(e) => Err(e.to_owned()),
        };
        self.rooms = rooms;
        res
    }

    /// Removes the user that the payload decodes to from the room it names.
    pub fn remove_user(&mut self, user_data: Option<&UserData>) -> (r: Result<(), String>)
        ensures
            rooms_wf(final(self)@),
            user_outcome(old(self)@, match user_data { Some(u) => Some(u@), None => None }, remove_op()) == (final(self)@, match r {
                Ok(()) => Ok(()),
                Err(e) => Err(e@),
            }),
            match (r, spec_in_room(old(self)@, match user_data { Some(u) => Some(u@), None => None }, remove_op())) {
                (Ok(()), Ok(v)) => final(self)@ == v,
                (Err(e), Err(m)) => e@ == m && final(self)@ == old(self)@,
                _ => false,
            },
    {
        proof { use_type_invariant(&*self); }
        let ud = match user_data {
            Some(u) => u,
            None => return Err("json serialize failed".to_owned()),
        };
        let i = match position_of_room(&self.rooms, &ud.room_name) {
            Some(i) => i,
            None => return Err("room not found : {:?}".to_owned()),
        };
        proof {
            lemma_rooms_view_update_push();
            lemma_first_match(rooms_view(self.rooms@), named(ud@.room_name));
        }
        let mut rooms = Vec::new();
        std::mem::swap(&mut rooms, &mut self.rooms);
        let res = match rooms[i].remove_user(ud) {
            Ok(()) => Ok(()),
            Err(e) => Err(e.to_owned()),
        };
        self.rooms = rooms;
        res
    }
}

/// Creating a room again under the name of a room just created is refused, and leaves the
/// rooms as they are.
pub proof fn lemma_duplicate_name_refused(rooms: Seq<RoomView>, room: RoomView, again: RoomView)
    requires
        spec_create_room(rooms, Some(room)) is Ok,
        again.name == room.name,
    ensures
        spec_create_room(spec_create_room(rooms, Some(room))->Ok_0, Some(again)) == Err::<Seq<RoomView>, Seq<char>>("duplicate room name"@),
{
    let v = rooms.push(with_users(room));
    assert(named(again.name)(v[rooms.len() as int]));
    lemma_first_match(v, named(again.name));
}

/// A change to the users of a room keeps its name and its list of users.
proof fn lemma_room_ops_keep_shape(room: RoomView, user: UserDataView)
    requires
        room.users is Some,
    ensures
        forall|op: spec_fn(RoomView, UserDataView) -> Result<RoomView, Seq<char>>|
            (op == add_op() || op == update_op() || op == remove_op()) && #[trigger] op(room, user) is Ok ==>
                op(room, user)->Ok_0.name == room.name && op(room, user)->Ok_0.users is Some,
{
}

/// Every operation of the room manager keeps its rooms with distinct names and a list of users
/// each.
pub proof fn lemma_operations_keep_rooms_wf(rooms: Seq<RoomView>, room: Option<RoomView>, user: Option<UserDataView>)
    requires
        rooms_wf(rooms),
    ensures
        rooms_wf(create_outcome(rooms, room).0),
        rooms_wf(user_outcome(rooms, user, add_op()).0),
        rooms_wf(user_outcome(rooms, user, update_op()).0),
        rooms_wf(user_outcome(rooms, user, remove_op()).0),
{
    if let Some(r) = room {
        lemma_first_match(rooms, named(r.name));
        if first_match(rooms, named(r.name)) is None {
            let v = rooms.push(with_users(r));
            assert forall|i: int, j: int|
                0 <= i < v.len() && 0 <= j < v.len() && i != j implies #[trigger] v[i].name != #[trigger] v[j].name by {
                if i == rooms.len() {
                    assert(!named(r.name)(rooms[j]));
                } else if j == rooms.len() {
                    assert(!named(r.name)(rooms[i]));
                }
            }
        }
    }
    if let Some(u) = user {
        lemma_first_match(rooms, named(u.room_name));
        if let Some(i) = first_match(rooms, named(u.room_name)) {
            lemma_room_ops_keep_shape(rooms[i], u);
            assert(add_op()(rooms[i], u) is Ok ==> (add_op()(rooms[i], u)->Ok_0.name == rooms[i].name));
            assert(update_op()(rooms[i], u) is Ok ==> (update_op()(rooms[i], u)->Ok_0.name == rooms[i].name));
            assert(remove_op()(rooms[i], u) is Ok ==> (remove_op()(rooms[i], u)->Ok_0.name == rooms[i].name));
        }
    }
}

/// A change to the users of a room acts on the room that the request names and on no other:
/// where a room has that name, the rooms afterwards are the rooms before, save that one, which
/// is the room as the change leaves it (or the change's error is the answer); where no room has
/// that name, the answer is `room not found`; a payload that does not decode is refused.
pub proof fn lemma_user_op_touches_only_named_room(
    rooms: Seq<RoomView>,
    user: UserDataView,
    op: spec_fn(RoomView, UserDataView) -> Result<RoomView, Seq<char>>,
)
    requires
        rooms_wf(rooms),
    ensures
        spec_in_room(rooms, None, op) == Err::<Seq<RoomView>, Seq<char>>("json serialize failed"@),
        (forall|j: int| 0 <= j < rooms.len() ==> rooms[j].name != user.room_name) ==> spec_in_room(rooms, Some(user), op)
            == Err::<Seq<RoomView>, Seq<char>>("room not found : {:?}"@),
        forall|i: int| 0 <= i < rooms.len() && rooms[i].name == user.room_name ==> match op(rooms[i], user) {
            Ok(r) => spec_in_room(rooms, Some(user), op) matches Ok(v) && v.len() == rooms.len() && v[i] == r
                && forall|j: int| 0 <= j < rooms.len() && j != i ==> v[j] == rooms[j],
            Err(m) => spec_in_room(rooms, Some(user), op) == Err::<Seq<RoomView>, Seq<char>>(m),
        },
{
    let p = named(user.room_name);
    lemma_first_match(rooms, p);
    assert forall|i: int| 0 <= i < rooms.len() && rooms[i].name == user.room_name implies first_match(rooms, p) == Some(i) by {
        assert forall|k: int| 0 <= k < i implies !p(#[trigger] rooms[k]) by {
            assert(rooms[k].name != rooms[i].name);
        }
        assert(is_first_match(rooms, p, i));
    }
}

/// Creating a room refuses a payload that does not decode and a name that a room already has,
/// leaving the rooms as they were; otherwise it appends the room after the others, with its
/// name and password, and with its users or, where it had no list, an empty one; the answer is
/// then the JSON of all the rooms.
pub proof fn lemma_create_outcome(rooms: Seq<RoomView>, room: RoomView)
    ensures
        create_outcome(rooms, None) == (rooms, Err::<Seq<char>, Seq<char>>("json serialize failed"@)),
        (exists|j: int| 0 <= j < rooms.len() && rooms[j].name == room.name) ==> create_outcome(rooms, Some(room))
            == (rooms, Err::<Seq<char>, Seq<char>>("duplicate room name"@)),
        (forall|j: int| 0 <= j < rooms.len() ==> rooms[j].name != room.name) ==> ({
            let after = create_outcome(rooms, Some(room)).0;
            &&& after.len() == rooms.len() + 1
            &&& forall|j: int| 0 <= j < rooms.len() ==> after[j] == rooms[j]
            &&& after[rooms.len() as int].name == room.name
            &&& after[rooms.len() as int].password == room.password
            &&& after[rooms.len() as int].users == Some(
                match room.users {
                    Some(us) => us,
                    None => Seq::<UserDataView>::empty(),
                },
            )
            &&& create_outcome(rooms, Some(room)).1 == Ok::<Seq<char>, Seq<char>>(rooms_json(after))
        }),
{
    let p = named(room.name);
    lemma_first_match(rooms, p);
    if exists|j: int| 0 <= j < rooms.len() && rooms[j].name == room.name {
        let j = choose|j: int| 0 <= j < rooms.len() && rooms[j].name == room.name;
        assert(p(rooms[j]));
    } else {
        assert forall|j: int| 0 <= j < rooms.len() implies !p(#[trigger] rooms[j]) by {}
    }
}

} // verus!
