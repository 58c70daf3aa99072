//! What the server decides for each message it receives.
use vstd::prelude::*;
use vstd::string::*;
use vstd::utf8::{valid_utf8, decode_utf8};
use crate::controller::room_controller::{RoomController, spec_action, response_result};
use crate::model::room::RoomView;
use crate::model::room_manager::RoomManager;
use crate::mvc::{Mvc, MvcView, Instance, InstanceView, Factory, run_middlewares};
use crate::mvc::controller::Controller;
use crate::mvc::path_filter::PathFilter;
use crate::mvc::request::{Request, RequestView};
use crate::mvc::response::{Response, ResponseView};
use crate::external::utf8_text;
use crate::text::{trim_end, trimmed_end, lookup, lemma_first_match, entry_named};

verus! {

/// The container the server starts with: the room controller built afresh for each request,
/// and a room manager with no rooms and the path filter shared by all.
pub fn init_mvc() -> (r: Mvc)
    ensures
        r@.transients == seq![("RoomController"@, Factory::RoomController)],
        r@.singletons == seq![
            ("RoomManager"@, InstanceView::RoomManager(Seq::<RoomView>::empty())),
            ("PathFilter"@, InstanceView::Middleware),
        ],
{
    let mut mvc = Mvc::new();
    proof {
        reveal_strlit("RoomManager");
        reveal_strlit("PathFilter");
        let e = Seq::<(Seq<char>, InstanceView)>::empty();
        let one = e.push(("RoomManager"@, InstanceView::RoomManager(Seq::<RoomView>::empty())));
        lemma_first_match(e, entry_named::<InstanceView>("RoomManager"@));
        lemma_first_match(one, entry_named::<InstanceView>("PathFilter"@));
        assert("RoomManager"@.len() != "PathFilter"@.len());
        assert(!entry_named::<InstanceView>("PathFilter"@)(one[0]));
        lemma_first_match(Seq::<(Seq<char>, Factory)>::empty(), entry_named::<Factory>("RoomController"@));
    }
    mvc.add_transient("RoomController", Factory::RoomController)
        .add_singleton("RoomManager", Instance::RoomManager(RoomManager::new()))
        .add_singleton("PathFilter", Instance::Middleware(PathFilter::new()));
    proof {
        reveal_strlit("RoomManager");
        reveal_strlit("PathFilter");
        reveal_strlit("RoomController");
        assert(mvc@.transients =~= seq![("RoomController"@, Factory::RoomController)]);
        assert(mvc@.singletons =~= seq![
            ("RoomManager"@, InstanceView::RoomManager(Seq::<RoomView>::empty())),
            ("PathFilter"@, InstanceView::Middleware),
        ]);
    }
    mvc
}

/// What a received message asks for.
#[derive(Debug, Clone, Copy, PartialEq, Eq, Structural)]
pub enum BodyKind {
    /// The quit code: the server is to stop.
    Quit,
    /// Nothing: there is nothing to answer.
    Empty,
    /// A request to answer.
    Message,
}

/// What a message asks for, given the message without its trailing white space.
pub open spec fn spec_classify_trimmed(trimmed: Seq<char>, quit_code: Seq<char>) -> BodyKind {
    if trimmed == quit_code {
        BodyKind::Quit
    } else if trimmed == Seq::<char>::empty() {
        BodyKind::Empty
    } else {
        BodyKind::Message
    }
}

/// What the message `body` asks for, its trailing white space (`trimmed_end`) aside.
pub open spec fn spec_classify(body: Seq<char>, quit_code: Seq<char>) -> BodyKind {
    spec_classify_trimmed(trimmed_end(body), quit_code)
}

/// What a message asks for, given the message without its trailing white space: to quit where
/// it is the quit code, nothing where it is empty, an answer otherwise.
pub fn classify_trimmed(trimmed: &str, quit_code: &str) -> (r: BodyKind)
    ensures
        r == spec_classify_trimmed(trimmed@, quit_code@),
{
    if trimmed.to_owned() == quit_code.to_owned() {
        BodyKind::Quit
    } else if trimmed.unicode_len() == 0 {
        assert(trimmed@ =~= Seq::<char>::empty());
        BodyKind::Empty
    } else {
        BodyKind::Message
    }
}

/// What the message `body` asks for, once its trailing white space is cut.
pub fn classify_body(body: &str, quit_code: &str) -> (r: BodyKind)
    ensures
        r == spec_classify(body@, quit_code@),
{
    let trimmed = trim_end(body);
    classify_trimmed(trimmed.as_str(), quit_code)
}

/// The name under which the controller for `req` is registered: the controller name that the
/// middlewares recorded in its header (empty without one), followed by `Controller`.
pub open spec fn controller_key_of(req: RequestView) -> Seq<char> {
    let name = if req.header.contains_key("controller_name_without_prefix"@) {
        req.header["controller_name_without_prefix"@]
    } else {
        Seq::<char>::empty()
    };
    name + "Controller"@
}

/// What the server made of a request: the error of the middleware that refused it, if one
/// did, and the answer of the controller that it names, if one is registered under that name.
pub struct Handled {
    pub middleware_error: Option<String>,
    pub answer: Option<Result<Response, String>>,
}

/// The container, the request, the middleware error and the answer after the server handles
/// the request: the middlewares run, and then (even where one of them refused the request) the
/// controller registered under the name the request now gives acts on it.
pub open spec fn spec_handle(m: MvcView, req: RequestView) -> (MvcView, RequestView, Option<Seq<char>>, Option<Result<ResponseView, Seq<char>>>) {
    let (req1, err) = run_middlewares(m, req);
    match lookup(m.transients, controller_key_of(req1)) {
        None => (m, req1, err, None),
        Some(Factory::RoomController) => {
            let (m2, res) = spec_action(req1, m);
            (m2, req1, err, Some(res))
        },
    }
}

/// Handles a decoded request: runs the middlewares, then builds the controller that the
/// request names and lets it answer.
pub fn handle_request(mvc: &mut Mvc, request: &mut Request) -> (r: Handled)
    ensures
        spec_handle(old(mvc)@, old(request)@) == (
            final(mvc)@,
            final(request)@,
            match r.middleware_error {
                Some(e) => Some(e@),
                None => None,
            },
            match r.answer {
                Some(a) => Some(response_result(a)),
                None => None,
            },
        ),
{
    let middleware_error = match mvc.invoke_middlewares(request) {
        Ok(()) => None,
        Err(e) => Some(e),
    };
    let name = match request.header.get("controller_name_without_prefix") {
        Some(s) => s.clone(),
        None => String::new(),
    };
    let key = name.concat("Controller");
    match mvc.get(key.as_str()) {
        None => Handled { middleware_error, answer: None },
        Some(Factory::RoomController) => {
            let mut controller = RoomController::new();
            let answer = controller.invoke(request, mvc);
            Handled { middleware_error, answer: Some(answer) }
        },
    }
}

/// What the server sends back for a handled request.
pub enum Reply {
    /// A middleware refused the request with this error: the error answer is sent.
    Refused(String),
    /// The controller failed with this error: the error answer is sent.
    Failed(String),
    /// The controller's answer, to be sent as JSON.
    Answer(Response),
}

/// The mathematical value of a `Reply`.
pub enum ReplyView {
    Refused(Seq<char>),
    Failed(Seq<char>),
    Answer(ResponseView),
}

impl View for Reply {
    type V = ReplyView;

    open spec fn view(&self) -> ReplyView {
        match self {
            Reply::Refused(e) => ReplyView::Refused(e@),
            Reply::Failed(e) => ReplyView::Failed(e@),
            Reply::Answer(r) => ReplyView::Answer(r@),
        }
    }
}

/// The replies for a handled request, in order: one for a middleware's refusal, then one for
/// the controller's answer or failure; none where no controller answered.
pub open spec fn spec_replies(
    middleware_error: Option<Seq<char>>,
    answer: Option<Result<ResponseView, Seq<char>>>,
) -> Seq<ReplyView> {
    let first = match middleware_error {
        Some(e) => seq![ReplyView::Refused(e)],
        None => Seq::empty(),
    };
    first + match answer {
        None => Seq::<ReplyView>::empty(),
        Some(Ok(resp)) => seq![ReplyView::Answer(resp)],
        Some(Err(e)) => seq![ReplyView::Failed(e)],
    }
}

/// The replies to send for a handled request.
pub fn replies(handled: Handled) -> (r: Vec<Reply>)
    ensures
        r@.map_values(|x: Reply| x@) == spec_replies(
            match handled.middleware_error {
                Some(e) => Some(e@),
                None => None,
            },
            match handled.answer {
                Some(a) => Some(response_result(a)),
                None => None,
            },
        ),
{
    let mut out: Vec<Reply> = Vec::new();
    let ghost h = handled;
    if let Some(e) = handled.middleware_error {
        out.push(Reply::Refused(e));
    }
    match handled.answer {
        None => {},
        Some(Ok(resp)) => out.push(Reply::Answer(resp)),
        Some(Err(e)) => out.push(Reply::Failed(e)),
    }
    assert(out@.map_values(|x: Reply| x@) =~= spec_replies(
        match h.middleware_error {
            Some(e) => Some(e@),
            None => None,
        },
        match h.answer {
            Some(a) => Some(response_result(a)),
            None => None,
        },
    ));
    out
}

/// The body of a received datagram: its text where it is valid UTF-8, and the empty body where
/// it is not; `None` for an empty datagram, which carries no message.
pub fn datagram_body(bytes: &[u8]) -> (r: Option<String>)
    ensures
        bytes@.len() == 0 ==> r is None,
        bytes@.len() > 0 ==> (r matches Some(b) && b@ == (if valid_utf8(bytes@) {
            decode_utf8(bytes@)
        } else {
            Seq::<char>::empty()
        })),
{
    if bytes.len() == 0 {
        return None;
    }
    match utf8_text(bytes) {
        Some(t) => Some(t),
        None => Some(String::new()),
    }
}

/// Whether an outgoing body is the quit code `:q`, on which the socket thread stops.
pub fn outgoing_is_quit(body: &str) -> (r: bool)
    ensures
        r == (body@ == ":q"@),
{
    body.to_owned() == ":q".to_owned()
}

} // verus!
