use vstd::prelude::*;
use crate::pipeline::{Middleware, Outcome, PipelineNext};
use crate::request::{PipelineResult, Request, RequestView};

verus! {

/// Holds of a handler that can be called on every request and whose result
/// depends on the request's value alone.
pub open spec fn is_request_handler<F: Fn(&Request) -> PipelineResult>(f: F) -> bool {
    &&& forall|q: Request| call_requires(f, (&q,))
    &&& forall|q1: Request, q2: Request, r1: PipelineResult, r2: PipelineResult|
        q1@ == q2@ && #[trigger] call_ensures(f, (&q1,), r1) && #[trigger] call_ensures(
            f,
            (&q2,),
            r2,
        ) ==> r1 == r2
}

/// Holds when the handler may return `r` on a request with the value `req`.
pub open spec fn handler_returns<F: Fn(&Request) -> PipelineResult>(
    f: F,
    req: RequestView,
    r: PipelineResult,
) -> bool {
    exists|q: Request| q@ == req && #[trigger] call_ensures(f, (&q,), r)
}

/// What the handler returns on a request with the value `req`.
pub open spec fn handler_result<F: Fn(&Request) -> PipelineResult>(
    f: F,
    req: RequestView,
) -> PipelineResult {
    choose|r: PipelineResult| #[trigger] handler_returns(f, req, r)
}

/// Turns a handler, which answers a request and knows nothing of the rest of
/// the chain, into a middleware that never hands the request on.
pub struct Handle<F: Fn(&Request) -> PipelineResult> {
    handler: F,
}

impl<F: Fn(&Request) -> PipelineResult> Handle<F> {
    #[verifier::type_invariant]
    spec fn deterministic(self) -> bool {
        is_request_handler(self.handler)
    }

    /// The handler.
    pub closed spec fn handler(&self) -> F {
        self.handler
    }

    pub fn new(handler: F) -> (r: Handle<F>)
        requires
            is_request_handler(handler),
        ensures
            r.handler() == handler,
    {
        Handle { handler }
    }
}

impl<F: Fn(&Request) -> PipelineResult + Send + Sync> Middleware for Handle<F> {
    /// The handler's result; the request stays as it was.
    open spec fn run(&self, req: RequestView, rest: spec_fn(RequestView) -> Outcome) -> Outcome {
        (handler_result(self.handler(), req), req)
    }

    fn process(&self, req: &mut Request, next: PipelineNext<'_>) -> (r: PipelineResult) {
        proof {
            use_type_invariant(self);
        }
        let r = (self.handler)(&*req);
        proof {
            assert(call_ensures(self.handler, (&*req,), r));
            let o = handler_result(self.handler, req@);
            assert(handler_returns(self.handler, req@, r));
            assert(handler_returns(self.handler, req@, o));
            let q = choose|q: Request| q@ == req@ && #[trigger] call_ensures(self.handler, (&q,), o);
            assert(call_ensures(self.handler, (&q,), o));
        }
        r
    }
}

} // verus!

verus! {

/// Another name for `Handle`.
pub type Process<F> = Handle<F>;

} // verus!
