use vstd::prelude::*;
use crate::mvc::{Mvc, MvcView};
use crate::mvc::request::{Request, RequestView};
use crate::mvc::response::{Response, ResponseView};
use crate::controller::room_controller::response_result;

verus! {

/// The error of a step that either accepts or refuses, as characters.
pub open spec fn refusal(r: Result<(), String>) -> Option<Seq<char>> {
    match r {
        Ok(()) => None,
        Err(e) => Some(e@),
    }
}

/// What answers a request: its own middlewares first, then its action.
pub trait Controller: Sized {
    /// The controller, the request and the error (if they refuse it) after the controller's
    /// own middlewares ran on `req`.
    spec fn middlewares_effect(&self, req: RequestView) -> (Self, RequestView, Option<Seq<char>>);

    /// The controller, the request, the container and the answer after the controller's
    /// action on `req` with the container `m`.
    spec fn action_effect(&self, req: RequestView, m: MvcView) -> (Self, RequestView, MvcView, Result<ResponseView, Seq<char>>);

    /// Runs the controller's middlewares, and its action only where they all accept the
    /// request; a refusal is the answer, with the container as it was.
    fn invoke(&mut self, request: &mut Request, mvc: &mut Mvc) -> (r: Result<Response, String>)
        ensures
            match old(self).middlewares_effect(old(request)@) {
                (c, req, Some(e)) => *final(self) == c && final(request)@ == req && final(mvc)@ == old(mvc)@
                    && response_result(r) == Err::<ResponseView, Seq<char>>(e),
                (c, req, None) => c.action_effect(req, old(mvc)@) == (*final(self), final(request)@, final(mvc)@, response_result(r)),
            },
    {
        if let Err(e) = self.invoke_middlewares(request) {
            return Err(e);
        }
        self.action(request, mvc)
    }

    /// The controller's own middlewares.
    fn invoke_middlewares(&mut self, request: &mut Request) -> (r: Result<(), String>)
        ensures
            old(self).middlewares_effect(old(request)@) == (*final(self), final(request)@, refusal(r)),
    ;

    /// The controller's answer to the request.
    fn action(&mut self, request: &mut Request, mvc: &mut Mvc) -> (r: Result<Response, String>)
        ensures
            old(self).action_effect(old(request)@, old(mvc)@) == (*final(self), final(request)@, final(mvc)@, response_result(r)),
    ;
}

} // verus!
