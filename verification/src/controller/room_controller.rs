//! The controller that creates rooms and adds, moves and removes their users.
use vstd::prelude::*;
use crate::external::{to_lowercase, lowercase_of};
use crate::model::room::RoomView;
use crate::model::room_manager::{create_outcome, user_outcome, add_op, update_op, remove_op};
use crate::mvc::{Mvc, MvcView, Instance, InstanceView};
use crate::mvc::controller::Controller;
use crate::mvc::header::Header;
use crate::mvc::request::{Request, RequestView};
use crate::mvc::response::{Response, ResponseView};
use crate::text::{lookup, put, entry_named, lemma_first_match};

verus! {

/// The name under which the room manager is registered.
pub open spec fn room_manager_name() -> Seq<char> {
    "RoomManager"@
}

/// A response with the status `status` and the payload `payload`.
pub open spec fn status_response(status: Seq<char>, payload: Seq<char>) -> ResponseView {
    ResponseView { header: map!["status_code"@ => status], payload }
}

/// The container and the answer after `outcome` is applied to the rooms of the registered room
/// manager: an `ok` response with the payload it gives, or its error; the error
/// `failed get RoomManager` where nothing, or something other than a room manager, is
/// registered under its name.
pub open spec fn via_room_manager(
    m: MvcView,
    outcome: spec_fn(Seq<RoomView>) -> (Seq<RoomView>, Result<Seq<char>, Seq<char>>),
) -> (MvcView, Result<ResponseView, Seq<char>>) {
    match lookup(m.singletons, room_manager_name()) {
        Some(InstanceView::RoomManager(rooms)) => {
            let (after, res) = outcome(rooms);
            (
                MvcView { singletons: put(m.singletons, room_manager_name(), InstanceView::RoomManager(after)), ..m },
                match res {
                    Ok(p) => Ok(status_response("ok"@, p)),
                    Err(e) => Err(e),
                },
            )
        },
        _ => (m, Err("failed get RoomManager"@)),
    }
}

/// A room creation from the request, as the room manager makes it.
pub open spec fn create_step(req: RequestView) -> spec_fn(Seq<RoomView>) -> (Seq<RoomView>, Result<Seq<char>, Seq<char>>) {
    |rooms: Seq<RoomView>| create_outcome(rooms, req.payload_room)
}

/// A change to the users of a room from the request, as the room manager makes it; its answer
/// has an empty payload.
pub open spec fn user_step(
    req: RequestView,
    op: spec_fn(RoomView, crate::mvc::payload::UserDataView) -> Result<RoomView, Seq<char>>,
) -> spec_fn(Seq<RoomView>) -> (Seq<RoomView>, Result<Seq<char>, Seq<char>>) {
    |rooms: Seq<RoomView>| {
        let (after, res) = user_outcome(rooms, req.payload_user, op);
        (after, match res {
            Ok(()) => Ok(Seq::<char>::empty()),
            Err(e) => Err(e),
        })
    }
}

/// The container and the answer for the request, given the lower-case form of its path:
/// the four routes of rooms and users, and a `NotFound` response for any other path.
pub open spec fn spec_dispatch(route: Seq<char>, req: RequestView, m: MvcView) -> (MvcView, Result<ResponseView, Seq<char>>) {
    if route == "/room/create"@ {
        via_room_manager(m, create_step(req))
    } else if route == "/room/user/add"@ {
        via_room_manager(m, user_step(req, add_op()))
    } else if route == "/room/user/update"@ {
        via_room_manager(m, user_step(req, update_op()))
    } else if route == "/room/user/remove"@ {
        via_room_manager(m, user_step(req, remove_op()))
    } else {
        (m, Ok(status_response("NotFound"@, Seq::empty())))
    }
}

/// The container and the answer for the request, whose path is read from its `path` header
/// and put in lower case (`lowercase_of`); the error `path is None` without that header.
pub open spec fn spec_action(req: RequestView, m: MvcView) -> (MvcView, Result<ResponseView, Seq<char>>) {
    if req.header.contains_key("path"@) {
        spec_dispatch(lowercase_of(req.header["path"@]), req, m)
    } else {
        (m, Err("path is None"@))
    }
}

/// The answer as characters.
pub open spec fn response_result(r: Result<Response, String>) -> Result<ResponseView, Seq<char>> {
    match r {
        Ok(resp) => Ok(resp@),
        Err(e) => Err(e@),
    }
}

/// `a` and `b` hold the same characters.
fn same_text(a: &str, b: &str) -> (r: bool)
    ensures
        r == (a@ == b@),
{
    a.to_owned() == b.to_owned()
}

/// A response with the status `status` and the payload `payload`.
fn status(code: &str, payload: String) -> (r: Response)
    ensures
        r@ == status_response(code@, payload@),
{
    let mut header = Header::new();
    header.insert("status_code".to_owned(), code.to_owned());
    assert(header@ =~= map!["status_code"@ => code@]);
    Response { header, payload }
}

/// The controller for rooms and their users.
pub struct RoomController;

impl RoomController {
    pub fn new() -> (r: RoomController)
        ensures
            r == RoomController,
    {
        RoomController {}
    }

    /// Creates the room that the payload of the request decodes to, and answers `ok` with all
    /// rooms as JSON.
    pub fn create(&mut self, request: &Request, mvc: &mut Mvc) -> (r: Result<Response, String>)
        ensures
            via_room_manager(old(mvc)@, create_step(request@)) == (final(mvc)@, response_result(r)),
    {
        let ghost m = mvc@;
        proof { lemma_first_match(m.singletons, entry_named(room_manager_name())); }
        match mvc.get_singleton("RoomManager") {
            Some(Instance::RoomManager(_)) => {},
            _ => return Err("failed get RoomManager".to_owned()),
        }
        let room_manager = match mvc.get_singleton_mut("RoomManager") {
            Some(Instance::RoomManager(rm)) => rm,
            _ => return Err("failed get RoomManager".to_owned()),
        };
        let room = match &request.payload_room {
            Some(x) => Some(x.duplicate()),
            None => None,
        };
        let json = match room_manager.create_room(room) {
            Ok(json) => json,
            Err(e) => return Err(e),
        };
        Ok(status("ok", json))
    }

    /// Adds the user that the payload of the request decodes to, to the room it names, and answers `ok`.
    pub fn add_user(&mut self, request: &Request, mvc: &mut Mvc) -> (r: Result<Response, String>)
        ensures
            via_room_manager(old(mvc)@, user_step(request@, add_op())) == (final(mvc)@, response_result(r)),
    {
        let ghost m = mvc@;
        proof { lemma_first_match(m.singletons, entry_named(room_manager_name())); }
        match mvc.get_singleton("RoomManager") {
            Some(Instance::RoomManager(_)) => {},
            _ => return Err("failed get RoomManager".to_owned()),
        }
        let room_manager = match mvc.get_singleton_mut("RoomManager") {
            Some(Instance::RoomManager(rm)) => rm,
            _ => return Err("failed get RoomManager".to_owned()),
        };
        if let Err(e) = room_manager.add_user(match &request.payload_user { Some(u) => Some(u.duplicate()), None => None }) {
            return Err(e);
        }
        proof { reveal_strlit(""); assert(""@ =~= Seq::<char>::empty()); }
        Ok(status("ok", "".to_owned()))
    }

    /// Moves the user that the payload of the request decodes to, in the room it names, and answers `ok`.
    pub fn update_user(&mut self, request: &Request, mvc: &mut Mvc) -> (r: Result<Response, String>)
        ensures
            via_room_manager(old(mvc)@, user_step(request@, update_op())) == (final(mvc)@, response_result(r)),
    {
        let ghost m = mvc@;
        proof { lemma_first_match(m.singletons, entry_named(room_manager_name())); }
        match mvc.get_singleton("RoomManager") {
            Some(Instance::RoomManager(_)) => {},
            _ => return Err("failed get RoomManager".to_owned()),
        }
        let room_manager = match mvc.get_singleton_mut("RoomManager") {
            Some(Instance::RoomManager(rm)) => rm,
            _ => return Err("failed get RoomManager".to_owned()),
        };
        if let Err(e) = room_manager.update_user(request.payload_user.as_ref()) {
            return Err(e);
        }
        proof { reveal_strlit(""); assert(""@ =~= Seq::<char>::empty()); }
        Ok(status("ok", "".to_owned()))
    }

    /// Removes the user that the payload of the request decodes to from the room it names, and answers `ok`.
    pub fn remove_user(&mut self, request: &Request, mvc: &mut Mvc) -> (r: Result<Response, String>)
        ensures
            via_room_manager(old(mvc)@, user_step(request@, remove_op())) == (final(mvc)@, response_result(r)),
    {
        let ghost m = mvc@;
        proof { lemma_first_match(m.singletons, entry_named(room_manager_name())); }
        match mvc.get_singleton("RoomManager") {
            Some(Instance::RoomManager(_)) => {},
            _ => return Err("failed get RoomManager".to_owned()),
        }
        let room_manager = match mvc.get_singleton_mut("RoomManager") {
            Some(Instance::RoomManager(rm)) => rm,
            _ => return Err("failed get RoomManager".to_owned()),
        };
        if let Err(e) = room_manager.remove_user(request.payload_user.as_ref()) {
            return Err(e);
        }
        proof { reveal_strlit(""); assert(""@ =~= Seq::<char>::empty()); }
        Ok(status("ok", "".to_owned()))
    }

    /// Answers the request whose lower-case path is `route`: the four routes of rooms and
    /// users, and a `NotFound` response for any other path.
    pub fn dispatch(&mut self, route: &str, request: &Request, mvc: &mut Mvc) -> (r: Result<Response, String>)
        ensures
            spec_dispatch(route@, request@, old(mvc)@) == (final(mvc)@, response_result(r)),
    {
        if same_text(route, "/room/create") {
            self.create(request, mvc)
        } else if same_text(route, "/room/user/add") {
            self.add_user(request, mvc)
        } else if same_text(route, "/room/user/update") {
            self.update_user(request, mvc)
        } else if same_text(route, "/room/user/remove") {
            self.remove_user(request, mvc)
        } else {
            proof { reveal_strlit(""); assert(""@ =~= Seq::<char>::empty()); }
            Ok(status("NotFound", "".to_owned()))
        }
    }
}

impl Controller for RoomController {
    /// The room controller has no middlewares of its own.
    open spec fn middlewares_effect(&self, req: RequestView) -> (RoomController, RequestView, Option<Seq<char>>) {
        (*self, req, None)
    }

    /// The room controller answers as `spec_action` says, and leaves itself and the request as
    /// they were.
    open spec fn action_effect(&self, req: RequestView, m: MvcView) -> (RoomController, RequestView, MvcView, Result<ResponseView, Seq<char>>) {
        let (after, res) = spec_action(req, m);
        (*self, req, after, res)
    }

    /// The room controller has no middlewares of its own: it accepts every request as it is.
    fn invoke_middlewares(&mut self, request: &mut Request) -> (r: Result<(), String>)
        ensures
            r is Ok,
            final(request)@ == old(request)@,
    {
        Ok(())
    }

    /// Answers the request by the lower case of its `path` header.
    fn action(&mut self, request: &mut Request, mvc: &mut Mvc) -> (r: Result<Response, String>)
        ensures
            spec_action(old(request)@, old(mvc)@) == (final(mvc)@, response_result(r)),
            final(request)@ == old(request)@,
    {
        let path = match request.header.get("path") {
            Some(path) => to_lowercase(path.as_str()),
            None => return Err("path is None".to_owned()),
        };
        self.dispatch(path.as_str(), request, mvc)
    }

    /// Answers the request as `action` does, the controller having no middlewares.
    fn invoke(&mut self, request: &mut Request, mvc: &mut Mvc) -> (r: Result<Response, String>)
        ensures
            spec_action(old(request)@, old(mvc)@) == (final(mvc)@, response_result(r)),
            final(request)@ == old(request)@,
    {
        if let Err(e) = self.invoke_middlewares(request) {
            return Err(e);
        }
        self.action(request, mvc)
    }
}


/// The four routes are four different paths.
proof fn lemma_route_literals_distinct()
    ensures
        "/room/create"@ != "/room/user/add"@,
        "/room/create"@ != "/room/user/update"@,
        "/room/create"@ != "/room/user/remove"@,
        "/room/user/add"@ != "/room/user/update"@,
        "/room/user/add"@ != "/room/user/remove"@,
        "/room/user/update"@ != "/room/user/remove"@,
{
    reveal_strlit("/room/create");
    reveal_strlit("/room/user/add");
    reveal_strlit("/room/user/update");
    reveal_strlit("/room/user/remove");
    assert("/room/create"@.len() != "/room/user/add"@.len());
    assert("/room/create"@.len() != "/room/user/update"@.len());
    assert("/room/create"@.len() != "/room/user/remove"@.len());
    assert("/room/user/add"@.len() != "/room/user/update"@.len());
    assert("/room/user/add"@.len() != "/room/user/remove"@.len());
    assert("/room/user/update"@[11] != "/room/user/remove"@[11]);
}

/// Each of the four routes is answered by the room manager's operation for it, on the rooms it
/// holds and with the payload the request carries: the container then holds the rooms as the
/// operation leaves them, and the answer is an `ok` response (the rooms as JSON for a creation,
/// an empty payload otherwise) or the operation's error; without a room manager the answer is
/// `failed get RoomManager` and the container stays as it was. Every other path is answered
/// `NotFound`, with an empty payload, and leaves the container as it was.
pub proof fn lemma_routes(req: RequestView, m: MvcView)
    ensures
        forall|route: Seq<char>|
            route != "/room/create"@ && route != "/room/user/add"@ && route != "/room/user/update"@ && route
                != "/room/user/remove"@ ==> #[trigger] spec_dispatch(route, req, m) == (
                m,
                Ok::<ResponseView, Seq<char>>(
                    ResponseView { header: map!["status_code"@ => "NotFound"@], payload: Seq::<char>::empty() },
                ),
            ),
        !(lookup(m.singletons, "RoomManager"@) matches Some(InstanceView::RoomManager(_))) ==> {
            &&& spec_dispatch("/room/create"@, req, m) == (m, Err::<ResponseView, Seq<char>>("failed get RoomManager"@))
            &&& spec_dispatch("/room/user/add"@, req, m) == (m, Err::<ResponseView, Seq<char>>("failed get RoomManager"@))
            &&& spec_dispatch("/room/user/update"@, req, m) == (m, Err::<ResponseView, Seq<char>>("failed get RoomManager"@))
            &&& spec_dispatch("/room/user/remove"@, req, m) == (m, Err::<ResponseView, Seq<char>>("failed get RoomManager"@))
        },
        lookup(m.singletons, "RoomManager"@) matches Some(InstanceView::RoomManager(rooms)) ==> {
            let created = create_outcome(rooms, req.payload_room);
            let added = user_outcome(rooms, req.payload_user, add_op());
            let updated = user_outcome(rooms, req.payload_user, update_op());
            let removed = user_outcome(rooms, req.payload_user, remove_op());
            &&& spec_dispatch("/room/create"@, req, m) == (
                MvcView { singletons: put(m.singletons, "RoomManager"@, InstanceView::RoomManager(created.0)), ..m },
                match created.1 {
                    Ok(json) => Ok(ResponseView { header: map!["status_code"@ => "ok"@], payload: json }),
                    Err(e) => Err(e),
                },
            )
            &&& spec_dispatch("/room/user/add"@, req, m) == (
                MvcView { singletons: put(m.singletons, "RoomManager"@, InstanceView::RoomManager(added.0)), ..m },
                match added.1 {
                    Ok(()) => Ok(ResponseView { header: map!["status_code"@ => "ok"@], payload: Seq::<char>::empty() }),
                    Err(e) => Err(e),
                },
            )
            &&& spec_dispatch("/room/user/update"@, req, m) == (
                MvcView { singletons: put(m.singletons, "RoomManager"@, InstanceView::RoomManager(updated.0)), ..m },
                match updated.1 {
                    Ok(()) => Ok(ResponseView { header: map!["status_code"@ => "ok"@], payload: Seq::<char>::empty() }),
                    Err(e) => Err(e),
                },
            )
            &&& spec_dispatch("/room/user/remove"@, req, m) == (
                MvcView { singletons: put(m.singletons, "RoomManager"@, InstanceView::RoomManager(removed.0)), ..m },
                match removed.1 {
                    Ok(()) => Ok(ResponseView { header: map!["status_code"@ => "ok"@], payload: Seq::<char>::empty() }),
                    Err(e) => Err(e),
                },
            )
        },
{
    lemma_route_literals_distinct();
}

} // verus!
