use vstd::prelude::*;
use crate::path::{slice_starts_with, starts_with};
use crate::request::{strings_view, OriginalUrl, Request, RequestView};

verus! {

/// Decides whether a request goes to a fork's own chain, and rewrites it
/// before it does.
pub trait ForkHandler: Send + Sync {
    /// Whether `req` goes to the fork's own chain.
    spec fn forks(&self, req: RequestView) -> bool;

    /// The request that the fork's own chain receives.
    spec fn rewrite(&self, req: RequestView) -> RequestView;

    fn should_fork(&self, req: &Request) -> (r: bool)
        ensures
            r == self.forks(req@),
    ;

    fn modify_request(&self, req: &mut Request)
        requires
            self.forks(old(req)@),
        ensures
            final(req)@ == self.rewrite(old(req)@),
    ;
}

/// Holds of a predicate that can be called on every request and whose answer
/// depends on the request's value alone.
pub open spec fn is_request_predicate<P: Fn(&Request) -> bool>(p: P) -> bool {
    &&& forall|q: Request| call_requires(p, (&q,))
    &&& forall|q1: Request, q2: Request, b1: bool, b2: bool|
        q1@ == q2@ && #[trigger] call_ensures(p, (&q1,), b1) && #[trigger] call_ensures(
            p,
            (&q2,),
            b2,
        ) ==> b1 == b2
}

/// What the predicate answers on a request with the value `req`.
pub open spec fn predicate_holds<P: Fn(&Request) -> bool>(p: P, req: RequestView) -> bool {
    exists|q: Request| q@ == req && #[trigger] call_ensures(p, (&q,), true)
}

/// Branches when a predicate holds of the request; leaves the request as it is.
pub struct ForkOnFn<P: Fn(&Request) -> bool> {
    pred: P,
}

impl<P: Fn(&Request) -> bool> ForkOnFn<P> {
    #[verifier::type_invariant]
    spec fn deterministic(self) -> bool {
        is_request_predicate(self.pred)
    }

    pub closed spec fn predicate(&self) -> P {
        self.pred
    }

    pub fn new(pred: P) -> (r: ForkOnFn<P>)
        requires
            is_request_predicate(pred),
        ensures
            r.predicate() == pred,
    {
        ForkOnFn { pred }
    }
}

impl<P: Fn(&Request) -> bool + Send + Sync> ForkHandler for ForkOnFn<P> {
    open spec fn forks(&self, req: RequestView) -> bool {
        predicate_holds(self.predicate(), req)
    }

    open spec fn rewrite(&self, req: RequestView) -> RequestView {
        req
    }

    fn should_fork(&self, req: &Request) -> (r: bool) {
        proof {
            use_type_invariant(self);
        }
        let r = (self.pred)(req);
        proof {
            if !r {
                assert forall|q: Request| q@ == req@ implies !call_ensures(self.pred, (&q,), true) by {
                    if call_ensures(self.pred, (&q,), true) {
                        assert(call_ensures(self.pred, (req,), r));
                    }
                }
            }
        }
        r
    }

    fn modify_request(&self, req: &mut Request) {
    }
}

/// The request that a path fork with `n` prefix segments hands to its own
/// chain: the path without its first `n` segments, and the path as it was
/// kept in the original-path slot, unless the slot already holds one.
pub open spec fn strip_prefix(req: RequestView, n: nat) -> RequestView {
    RequestView {
        path: req.path.subrange(n as int, req.path.len() as int),
        original_url: match req.original_url {
            Some(u) => Some(u),
            None => Some(req.path),
        },
        ..req
    }
}

/// Path forks nested in one another: the original-path slot keeps the path
/// that the outermost one received, whatever the inner ones strip after it,
/// and the innermost chain sees what is left after every prefix.
pub proof fn lemma_nested_strip(req: RequestView, n: nat, m: nat)
    requires
        req.original_url is None,
        n + m <= req.path.len(),
    ensures
        strip_prefix(strip_prefix(req, n), m).original_url == Some(req.path),
        strip_prefix(strip_prefix(req, n), m).path == req.path.subrange(
            (n + m) as int,
            req.path.len() as int,
        ),
{
    assert(strip_prefix(strip_prefix(req, n), m).path =~= req.path.subrange(
        (n + m) as int,
        req.path.len() as int,
    ));
}

/// Branches when the request's path starts with the given segments, and
/// strips them from it.
pub struct ForkOnPath {
    segments: Vec<String>,
}

impl ForkOnPath {
    /// The segments the path must start with.
    pub closed spec fn segments(&self) -> Seq<Seq<char>> {
        strings_view(self.segments@)
    }

    pub fn new(segments: Vec<String>) -> (r: ForkOnPath)
        ensures
            r.segments() == strings_view(segments@),
    {
        ForkOnPath { segments }
    }
}

/// The strings of `v` from position `start` on.
fn copy_from(v: &Vec<String>, start: usize) -> (r: Vec<String>)
    requires
        start <= v.len(),
    ensures
        strings_view(r@) == strings_view(v@).subrange(start as int, v.len() as int),
{
    let mut r: Vec<String> = Vec::new();
    let mut i: usize = start;
    while i < v.len()
        invariant
            start <= i <= v.len(),
            strings_view(r@) == strings_view(v@).subrange(start as int, i as int),
        decreases v.len() - i,
    {
        let ghost before = r@;
        let c = v[i].clone();
        r.push(c);
        proof {
            assert(r@ == before.push(v@[i as int]));
            assert(strings_view(r@) =~= strings_view(before).push(v@[i as int]@));
            assert(strings_view(v@).subrange(start as int, i + 1) =~= strings_view(v@).subrange(
                start as int,
                i as int,
            ).push(v@[i as int]@));
        }
        i = i + 1;
    }
    r
}

impl ForkHandler for ForkOnPath {
    open spec fn forks(&self, req: RequestView) -> bool {
        starts_with(req.path, self.segments())
    }

    open spec fn rewrite(&self, req: RequestView) -> RequestView {
        strip_prefix(req, self.segments().len())
    }

    fn should_fork(&self, req: &Request) -> (r: bool) {
        slice_starts_with(req.path.as_slice(), self.segments.as_slice())
    }

    fn modify_request(&self, req: &mut Request) {
        let rest = copy_from(&req.path, self.segments.len());
        if req.original_url.is_none() {
            let whole = copy_from(&req.path, 0);
            assert(strings_view(req.path@).subrange(0, req.path.len() as int) =~= strings_view(req.path@));
            req.original_url = Some(OriginalUrl { path: whole });
        }
        req.path = rest;
        assert(req@.headers == old(req)@.headers);
    }
}

} // verus!
