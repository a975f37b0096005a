use vstd::prelude::*;
use crate::fork::{
    is_request_predicate, predicate_holds, strip_prefix, ForkHandler, ForkOnFn, ForkOnPath,
};
use crate::path::{parse_path, parse_path_spec, starts_with};
use crate::request::{no_handler, no_handler_error, PipelineResult, Request, RequestView};

verus! {

broadcast use vstd::std_specs::vec::group_vec_axioms;

/// What a part of a chain makes of a request: the result, and the request as
/// it was left.
pub type Outcome = (PipelineResult, RequestView);

/// The rest of a chain, from some position on.
pub trait Continuation {
    /// What running the rest of the chain on `req` gives.
    spec fn outcome(&self, req: RequestView) -> Outcome;

    fn resume(&self, req: &mut Request) -> (r: PipelineResult)
        ensures
            (r, final(req)@) == self.outcome(old(req)@),
    ;
}

/// The handle a middleware calls to hand the request on to the rest of the
/// chain.
pub struct PipelineNext<'a> {
    cont: &'a dyn Continuation,
}

impl<'a> PipelineNext<'a> {
    /// What the rest of the chain makes of `req`.
    pub closed spec fn outcome(&self, req: RequestView) -> Outcome {
        self.cont.outcome(req)
    }

    /// Runs the rest of the chain on the request.
    pub fn process(&self, req: &mut Request) -> (r: PipelineResult)
        ensures
            (r, final(req)@) == self.outcome(old(req)@),
    {
        self.cont.resume(req)
    }
}

/// A unit of a chain. It may answer the request itself, change it, hand it
/// on through `next`, and change what the rest of the chain answered.
///
/// An implementation keeps to `run`: what `process` returns, and the request
/// it leaves, are what `run` gives for the request it received and the rest
/// of the chain behind `next`.
pub trait Middleware: Send + Sync {
    /// What this middleware makes of `req`, given what the rest of the chain
    /// makes of any request. By default: whatever the rest of the chain makes
    /// of the request, untouched.
    open spec fn run(&self, req: RequestView, rest: spec_fn(RequestView) -> Outcome) -> Outcome {
        rest(req)
    }

    fn process(&self, req: &mut Request, next: PipelineNext<'_>) -> (r: PipelineResult)
        ensures
            (r, final(req)@) == self.run(old(req)@, |q: RequestView| next.outcome(q)),
    ;
}

/// A middleware held by a chain.
pub struct Unit {
    pub(crate) middleware: Box<dyn Middleware>,
}

impl Unit {
    /// What the middleware makes of `req`, given the rest of the chain.
    pub closed spec fn run(&self, req: RequestView, rest: spec_fn(RequestView) -> Outcome) -> Outcome {
        self.middleware.run(req, rest)
    }
}

/// A position of a chain: a middleware, or a fork to a chain of its own.
pub enum Stage {
    Unit(Unit),
    Fork(Fork),
}

/// A middleware that hands the request to a chain of its own when its
/// handler says so, after letting the handler rewrite it, and otherwise to the
/// rest of the outer chain.
pub struct Fork {
    pub(crate) sub: Pipeline,
    pub(crate) handler: Box<dyn ForkHandler>,
}

impl Fork {
    /// Whether the fork takes `req` to its own chain.
    pub closed spec fn forks(&self, req: RequestView) -> bool {
        self.handler.forks(req)
    }

    /// The request that the fork's own chain receives.
    pub closed spec fn rewrite(&self, req: RequestView) -> RequestView {
        self.handler.rewrite(req)
    }

    /// The fork's own chain.
    pub closed spec fn sub(&self) -> Pipeline {
        self.sub
    }
}

/// Turns a value into a position of a chain.
pub trait IntoStage {
    /// Holds when `st` behaves as this value does.
    spec fn becomes(&self, st: Stage) -> bool;

    fn into_stage(self) -> (r: Stage)
        ensures
            self.becomes(r),
    ;
}

impl<M: Middleware + 'static> IntoStage for M {
    open spec fn becomes(&self, st: Stage) -> bool {
        match st {
            Stage::Unit(u) => forall|req: RequestView, rest: spec_fn(RequestView) -> Outcome|
                #[trigger] u.run(req, rest) == self.run(req, rest),
            Stage::Fork(_) => false,
        }
    }

    fn into_stage(self) -> (r: Stage) {
        Stage::Unit(Unit { middleware: Box::new(Held { inner: self }) })
    }
}

/// A middleware as a chain holds it.
struct Held<M> {
    inner: M,
}

impl<M: Middleware> Middleware for Held<M> {
    closed spec fn run(&self, req: RequestView, rest: spec_fn(RequestView) -> Outcome) -> Outcome {
        self.inner.run(req, rest)
    }

    fn process(&self, req: &mut Request, next: PipelineNext<'_>) -> (r: PipelineResult) {
        self.inner.process(req, next)
    }
}

impl IntoStage for Fork {
    open spec fn becomes(&self, st: Stage) -> bool {
        st == Stage::Fork(*self)
    }

    fn into_stage(self) -> (r: Stage) {
        Stage::Fork(self)
    }
}

/// A stage that hands `req` on unchanged and passes back what the rest of
/// the chain gives.
pub open spec fn hands_on(st: Stage, req: RequestView) -> bool {
    match st {
        Stage::Unit(m) => forall|rest: spec_fn(RequestView) -> Outcome| #[trigger]
            m.run(req, rest) == rest(req),
        Stage::Fork(f) => !f.forks(req),
    }
}

/// A middleware whose outcome on `req` does not depend on the rest of the
/// chain: it answers without delegating.
pub open spec fn answers(st: Stage, req: RequestView) -> bool {
    match st {
        Stage::Unit(m) => forall|r1: spec_fn(RequestView) -> Outcome, r2: spec_fn(RequestView) -> Outcome| #[trigger]
            m.run(req, r1) == #[trigger] m.run(req, r2),
        Stage::Fork(_) => false,
    }
}

/// A chain of middleware, run in the order in which they were added.
pub struct Pipeline {
    stages: Vec<Stage>,
}

/// The rest of a chain from a given position.
struct Cursor<'a> {
    pipeline: &'a Pipeline,
    index: usize,
}

impl<'a> Continuation for Cursor<'a> {
    closed spec fn outcome(&self, req: RequestView) -> Outcome {
        self.pipeline.dispatch_from(self.index as int, req)
    }

    fn resume(&self, req: &mut Request) -> (r: PipelineResult) {
        self.pipeline.invoke_handler(self.index, req)
    }
}

impl Pipeline {
    /// The number of positions of the chain.
    pub closed spec fn len(&self) -> nat {
        self.stages@.len()
    }

    /// The stage at position `i`.
    pub closed spec fn stage(&self, i: int) -> Stage {
        self.stages[i]
    }

    spec fn run_from(&self, index: int, req: RequestView) -> Outcome
        decreases self, 2 * (self.stages.len() - index),
    {
        if 0 <= index < self.stages.len() {
            match self.stages[index] {
                Stage::Unit(m) => m.run(req, self.rest_from(index + 1)),
                Stage::Fork(f) => if f.handler.forks(req) {
                    f.sub.run_from(0, f.handler.rewrite(req))
                } else {
                    self.run_from(index + 1, req)
                },
            }
        } else {
            (no_handler(), req)
        }
    }

    spec fn rest_from(&self, index: int) -> spec_fn(RequestView) -> Outcome
        decreases self, 2 * (self.stages.len() - index) + 1,
    {
        |q: RequestView|
            if index <= self.stages.len() {
                self.run_from(index, q)
            } else {
                (no_handler(), q)
            }
    }

    /// What the chain makes of `req` from position `index` on: the
    /// middleware there runs with the rest of the chain after it; a fork runs
    /// its own chain on the rewritten request, or goes on with the next
    /// position; past the end, the no-handler error.
    pub closed spec fn dispatch_from(&self, index: int, req: RequestView) -> Outcome {
        self.run_from(index, req)
    }

    /// What the whole chain makes of `req`.
    pub open spec fn dispatch(&self, req: RequestView) -> Outcome {
        self.dispatch_from(0, req)
    }

    /// One step of a run: the middleware at `index` runs with the rest of
    /// the chain after it; a fork runs its own chain on the rewritten request
    /// and never the rest of the outer chain, or goes on with the next
    /// position; past the end comes the no-handler error.
    pub proof fn lemma_dispatch_step(&self, index: int, req: RequestView)
        requires
            0 <= index,
        ensures
            index >= self.len() ==> self.dispatch_from(index, req) == (no_handler(), req),
            index < self.len() ==> match self.stage(index) {
                Stage::Unit(u) => self.dispatch_from(index, req) == u.run(
                    req,
                    |q: RequestView| self.dispatch_from(index + 1, q),
                ),
                Stage::Fork(f) => self.dispatch_from(index, req) == if f.forks(req) {
                    f.sub().dispatch(f.rewrite(req))
                } else {
                    self.dispatch_from(index + 1, req)
                },
            },
    {
        if index < self.len() {
            if let Stage::Unit(u) = self.stage(index) {
                assert(self.rest_from(index + 1) =~= (|q: RequestView|
                    self.dispatch_from(index + 1, q)));
            }
        }
    }

    proof fn lemma_handed_on(&self, i: int, k: int, req: RequestView)
        requires
            0 <= i <= k <= self.len(),
            forall|j: int| i <= j < k ==> hands_on(#[trigger] self.stage(j), req),
        ensures
            self.run_from(i, req) == self.run_from(k, req),
        decreases k - i,
    {
        if i < k {
            self.lemma_handed_on(i + 1, k, req);
            assert(hands_on(self.stage(i), req));
            match self.stages[i] {
                Stage::Unit(u) => {
                    assert(u.run(req, self.rest_from(i + 1)) == self.rest_from(i + 1)(req));
                },
                Stage::Fork(f) => {},
            }
        }
    }

    /// The first middleware that answers a request without delegating
    /// decides the outcome when every position before it hands the request on
    /// unchanged: the chain goes no further.
    pub proof fn lemma_first_answer_decides(
        &self,
        k: int,
        req: RequestView,
        rest: spec_fn(RequestView) -> Outcome,
    )
        requires
            0 <= k < self.len(),
            forall|i: int| 0 <= i < k ==> hands_on(#[trigger] self.stage(i), req),
            answers(self.stage(k), req),
        ensures
            self.stage(k) is Unit,
            self.dispatch(req) == self.stage(k)->Unit_0.run(req, rest),
    {
        self.lemma_handed_on(0, k, req);
        let u = self.stages[k]->Unit_0;
        assert(u.run(req, self.rest_from(k + 1)) == u.run(req, rest));
    }

    /// A chain in which every position hands the request on, the empty chain
    /// among them, fails with the no-handler error and leaves the request as
    /// it was.
    pub proof fn lemma_handing_on_ends_in_no_handler(&self, req: RequestView)
        requires
            forall|i: int| 0 <= i < self.len() ==> hands_on(#[trigger] self.stage(i), req),
        ensures
            self.dispatch(req) == (no_handler(), req),
    {
        self.lemma_handed_on(0, self.stages.len() as int, req);
    }

    /// An empty chain.
    pub fn new() -> (r: Pipeline)
        ensures
            r.len() == 0,
    {
        Pipeline { stages: Vec::new() }
    }

    /// Appends a middleware, or a fork, to the end of the chain.
    pub fn add<S: IntoStage>(&mut self, handler: S)
        ensures
            final(self).len() == old(self).len() + 1,
            forall|i: int| 0 <= i < old(self).len() ==> final(self).stage(i) == old(self).stage(i),
            handler.becomes(final(self).stage(old(self).len() as int)),
    {
        let st = handler.into_stage();
        self.stages.push(st);
    }

    /// Runs the chain from position `index` on.
    fn invoke_handler(&self, index: usize, req: &mut Request) -> (r: PipelineResult)
        ensures
            (r, final(req)@) == self.dispatch_from(index as int, old(req)@),
        decreases self, self.stages.len() - index,
    {
        if index < self.stages.len() {
            let st = &self.stages[index];
            match st {
                Stage::Unit(m) => {
                    let cursor = Cursor { pipeline: self, index: index + 1 };
                    let next = PipelineNext { cont: &cursor };
                    let r = m.middleware.process(req, next);
                    assert((|q: RequestView| next.outcome(q)) =~= self.rest_from(index + 1));
                    assert(self.run_from(index as int, old(req)@) == m.run(old(req)@, self.rest_from(index + 1)));
                    assert((r, req@) == self.run_from(index as int, old(req)@));
                    r
                },
                Stage::Fork(f) => {
                    if f.handler.should_fork(req) {
                        f.handler.modify_request(req);
                        let r = f.sub.invoke_handler(0, req);
                        assert((r, req@) == self.run_from(index as int, old(req)@));
                        r
                    } else {
                        let r = self.invoke_handler(index + 1, req);
                        assert((r, req@) == self.run_from(index as int, old(req)@));
                        r
                    }
                },
            }
        } else {
            no_handler_error()
        }
    }

    /// Runs the whole chain on the request.
    pub fn handle(&self, req: &mut Request) -> (r: PipelineResult)
        ensures
            (r, final(req)@) == self.dispatch(old(req)@),
    {
        self.invoke_handler(0, req)
    }
}

impl Fork {
    /// A fork to the chain that `pipeline_builder` fills, run at once on an
    /// empty chain, for the requests of which `predicate` holds. The request
    /// reaches that chain as it is.
    pub fn when<P, B>(predicate: P, pipeline_builder: B) -> (r: Fork) where
        P: Fn(&Request) -> bool + Send + Sync + 'static,
        B: FnOnce(&mut Pipeline),

        requires
            is_request_predicate(predicate),
            forall|p: &mut Pipeline| call_requires(pipeline_builder, (p,)),
        ensures
            forall|req: RequestView| r.forks(req) == predicate_holds(predicate, req),
            forall|req: RequestView| r.rewrite(req) == req,
            exists|p: &mut Pipeline|
                p.len() == 0 && *final(p) == r.sub() && call_ensures(pipeline_builder, (p,), ()),
    {
        let mut sub = Pipeline::new();
        pipeline_builder(&mut sub);
        Fork { sub, handler: Box::new(ForkOnFn::new(predicate)) }
    }

    /// A fork to the chain that `pipeline_builder` fills, run at once on an
    /// empty chain, for the requests whose path starts with the segments of
    /// `path`. That chain sees the path without them; the original-path slot
    /// keeps the path as it was, unless an outer fork has filled it already.
    pub fn when_path<B>(path: &str, pipeline_builder: B) -> (r: Fork) where
        B: FnOnce(&mut Pipeline),

        requires
            parse_path_spec(path@) is Ok,
            forall|p: &mut Pipeline| call_requires(pipeline_builder, (p,)),
        ensures
            forall|req: RequestView| #[trigger]
                r.forks(req) == starts_with(req.path, parse_path_spec(path@)->Ok_0),
            forall|req: RequestView| #[trigger]
                r.rewrite(req) == strip_prefix(req, parse_path_spec(path@)->Ok_0.len()),
            exists|p: &mut Pipeline|
                p.len() == 0 && *final(p) == r.sub() && call_ensures(pipeline_builder, (p,), ()),
    {
        let segments = match parse_path(path) {
            Ok(s) => s,
            Err(_) => {
                // the path parses, by the precondition
                proof {
                    assert(false);
                }
                Vec::new()
            },
        };
        let mut sub = Pipeline::new();
        pipeline_builder(&mut sub);
        Fork { sub, handler: Box::new(ForkOnPath::new(segments)) }
    }
}

} // verus!
