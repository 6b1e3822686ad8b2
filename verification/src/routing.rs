//! Routing: an ordered list of resolvers, each bound to a handler. A
//! request goes to the handler of the first resolver that accepts it.

use vstd::prelude::*;
use vstd::view::View as _;
use crate::error::Result;
use crate::error::RouteSpecError;
use crate::error::RouteSpecErrorModel;
use crate::method::Method;
use crate::method::MethodModel;
use crate::request_handler::outcome_model;
use crate::request_handler::RequestHandler;
use crate::resolution::classify_all;
use crate::resolution::first_repeat;
use crate::resolution::resolve_spec;
use crate::resolution::ResolveParams;
use crate::resolution::Resolver;
use crate::resolution::StandardResolver;
use crate::text::segments;
use crate::text::owned_segments;
use crate::text::split_segments;
use crate::text::IntoText;
use crate::view::View;

verus! {

/// An entry of a router: a resolver and the handler it is bound to.
pub struct ResolverEntry<R, H> {
    pub resolver: R,
    pub handler: H,
}

impl<R: Resolver, H: RequestHandler> ResolverEntry<R, H> {
    /// Binds `handler` to `resolver`.
    pub fn new(resolver: R, handler: H) -> (entry: Self)
        ensures
            entry.resolver == resolver,
            entry.handler == handler,
    {
        ResolverEntry { resolver, handler }
    }
}

/// Whether each of the first `n` entries may decline `route` requested
/// with `method`.
pub open spec fn declined_by_first<R: Resolver, H>(
    entries: Seq<ResolverEntry<R, H>>,
    method: MethodModel,
    route: Seq<Seq<char>>,
    n: int,
) -> bool {
    forall|j: int| 0 <= j < n ==> (#[trigger] entries[j]).resolver.resolves(method, route, None)
}

/// Whether `outcome` is what the entry at `i` may give for `route`
/// requested with `method`, as the first entry to accept it: every entry
/// before it declines the route, its resolver accepts the route with
/// some bindings, and its handler gives `outcome` for those bindings.
pub open spec fn answered_by<R: Resolver, H: RequestHandler>(
    entries: Seq<ResolverEntry<R, H>>,
    method: MethodModel,
    route: Seq<Seq<char>>,
    i: int,
    bindings: Map<Seq<char>, Seq<char>>,
    outcome: core::result::Result<crate::view::ViewModel, crate::error::ErrorModel>,
) -> bool {
    &&& 0 <= i < entries.len()
    &&& declined_by_first(entries, method, route, i)
    &&& entries[i].resolver.resolves(method, route, Some(bindings))
    &&& entries[i].handler.handles(bindings, outcome)
}

/// Whether `outcome` is what dispatching `route`, requested with `method`,
/// over `entries` may give: nothing if every entry declines the route, and
/// otherwise a result of the handler of the first entry that accepts it,
/// for the bindings of that entry's resolver.
pub open spec fn dispatched<R: Resolver, H: RequestHandler>(
    entries: Seq<ResolverEntry<R, H>>,
    method: MethodModel,
    route: Seq<Seq<char>>,
    outcome: Option<Result<View>>,
) -> bool {
    match outcome {
        None => declined_by_first(entries, method, route, entries.len() as int),
        Some(result) => exists|i: int, bindings: Map<Seq<char>, Seq<char>>| #[trigger]
            answered_by(entries, method, route, i, bindings, outcome_model(result)),
    }
}

/// A list of resolvers and the handlers they are bound to, in the order in
/// which they were registered.
pub struct Router<R, H> {
    resolvers: Vec<ResolverEntry<R, H>>,
}

impl<R: Resolver, H: RequestHandler> Router<R, H> {
    /// The entries, in the order in which they are tried.
    pub closed spec fn entries(&self) -> Seq<ResolverEntry<R, H>> {
        self.resolvers@
    }

    /// Hands the request to the handler of the first entry whose resolver
    /// accepts it. `None` means that no entry accepted the route.
    pub fn dispatch(&self, params: &ResolveParams) -> (outcome: Option<Result<View>>)
        ensures
            dispatched(self.entries(), params.method@, params.route.deep_view(), outcome),
    {
        let ghost method = params.method@;
        let ghost route = params.route.deep_view();
        let mut i: usize = 0;
        while i < self.resolvers.len()
            invariant
                i <= self.resolvers.len(),
                method == params.method@,
                route == params.route.deep_view(),
                declined_by_first(self.entries(), method, route, i as int),
            decreases self.resolvers.len() - i,
        {
            let entry = &self.resolvers[i];
            match entry.resolver.resolve(params) {
                None => {},
                Some(data) => {
                    let result = entry.handler.handle(data);
                    assert(answered_by(
                        self.entries(),
                        method,
                        route,
                        i as int,
                        data@,
                        outcome_model(result),
                    ));
                    return Some(result);
                },
            }
            i = i + 1;
        }
        None
    }

    /// Tries to handle a request for `path` made with `method`. The path is
    /// split on `/`, and empty segments are dropped. `None` means that no
    /// entry accepted the route, which a server answers with status 404.
    pub fn handle(&self, method: Method, path: &str) -> (outcome: Option<Result<View>>)
        ensures
            dispatched(self.entries(), method@, segments(path@), outcome),
    {
        let params = ResolveParams { method, route: split_segments(path) };
        self.dispatch(&params)
    }
}

/// Collects the entries of a [`Router`] while the server is being set up.
pub struct RouterBuilder<R, H> {
    resolvers: Vec<ResolverEntry<R, H>>,
}

impl<R: Resolver, H: RequestHandler> RouterBuilder<R, H> {
    /// The entries bound so far, in the order in which they were bound.
    pub closed spec fn entries(&self) -> Seq<ResolverEntry<R, H>> {
        self.resolvers@
    }

    /// A builder without entries.
    pub fn new() -> (builder: Self)
        ensures
            builder.entries() == Seq::<ResolverEntry<R, H>>::empty(),
    {
        RouterBuilder { resolvers: Vec::new() }
    }

    /// Binds `handler` to a resolver that the caller has made.
    pub fn bind_resolver(&mut self, resolver: R, handler: H)
        ensures
            final(self).entries() == old(self).entries().push(ResolverEntry { resolver, handler }),
    {
        self.resolvers.push(ResolverEntry::new(resolver, handler));
    }

    /// Binds `handler` to the resolver that `constructor` makes of `method`
    /// and of the segments of the route `spec`. Where the constructor
    /// refuses the specification, nothing is bound.
    pub fn bind_with<T: IntoText, C>(
        &mut self,
        constructor: C,
        method: Method,
        spec: T,
        handler: H,
    ) -> (bound: core::result::Result<(), RouteSpecError>) where
        C: FnOnce(Method, Vec<String>) -> core::result::Result<R, RouteSpecError>,

        requires
            forall|segments: Vec<String>| call_requires(constructor, (method, segments)),
        ensures
            match bound {
                Ok(_) => exists|resolver: R, segments: Vec<String>|
                    {
                        &&& segments.deep_view() == crate::text::segments(spec.text())
                        &&& call_ensures(constructor, (method, segments), Ok(resolver))
                        &&& final(self).entries() == old(self).entries().push(
                            ResolverEntry { resolver, handler },
                        )
                    },
                Err(error) => exists|segments: Vec<String>|
                    {
                        &&& segments.deep_view() == crate::text::segments(spec.text())
                        &&& call_ensures(constructor, (method, segments), Err(error))
                        &&& final(self).entries() == old(self).entries()
                    },
            },
    {
        let spec = spec.into_text();
        let segments = owned_segments(spec.as_str());
        match constructor(method, segments) {
            Ok(resolver) => {
                self.bind_resolver(resolver, handler);
                Ok(())
            },
            Err(error) => Err(error),
        }
    }
}

impl<H: RequestHandler> RouterBuilder<StandardResolver, H> {
    /// Binds `handler` to the route `spec` and the request `method`, with a
    /// [`StandardResolver`].
    ///
    /// Fails, and binds nothing, if two variables of `spec` share a name.
    pub fn bind<T: IntoText>(&mut self, method: Method, spec: T, handler: H) -> (bound:
        core::result::Result<(), RouteSpecError>)
        ensures
            match bound {
                Ok(_) => {
                    &&& final(self).entries().len() == old(self).entries().len() + 1
                    &&& final(self).entries().drop_last() == old(self).entries()
                    &&& final(self).entries().last().handler == handler
                    &&& final(self).entries().last().resolver.method() == method@
                    &&& final(self).entries().last().resolver.tokens() == classify_all(
                        segments(spec.text()),
                    )
                },
                Err(error) => {
                    &&& final(self).entries() == old(self).entries()
                    &&& exists|j: int|
                        {
                            &&& first_repeat(classify_all(segments(spec.text())), j)
                            &&& error@ == RouteSpecErrorModel::DuplicateVariable(
                                #[trigger] classify_all(segments(spec.text()))[j].name(),
                            )
                        }
                },
            },
    {
        match StandardResolver::compile(method, spec) {
            Ok(resolver) => {
                self.bind_resolver(resolver, handler);
                assert(self.entries().drop_last() == old(self).entries());
                Ok(())
            },
            Err(error) => Err(error),
        }
    }
}

} // verus!

verus! {

/// Entries are tried in the order of registration, and the first match
/// wins: where the entry at `i` is the first whose specification matches
/// the route, a dispatch gives what the handler of that entry gives for
/// the bindings of the match, even where later entries match the route
/// too.
pub proof fn lemma_first_match_wins<H: RequestHandler>(
    entries: Seq<ResolverEntry<StandardResolver, H>>,
    method: MethodModel,
    route: Seq<Seq<char>>,
    outcome: Option<Result<View>>,
    i: int,
)
    requires
        dispatched(entries, method, route, outcome),
        0 <= i < entries.len(),
        resolve_spec(entries[i].resolver.method(), entries[i].resolver.tokens(), method, route)
            is Some,
        forall|j: int|
            0 <= j < i ==> resolve_spec(
                (#[trigger] entries[j]).resolver.method(),
                entries[j].resolver.tokens(),
                method,
                route,
            ) is None,
    ensures
        outcome is Some,
        entries[i].handler.handles(
            resolve_spec(
                entries[i].resolver.method(),
                entries[i].resolver.tokens(),
                method,
                route,
            )->0,
            outcome_model(outcome->0),
        ),
{
    match outcome {
        None => {
            assert(entries[i].resolver.resolves(method, route, None));
        },
        Some(result) => {
            let (c, bindings) = choose|c: int, bindings: Map<Seq<char>, Seq<char>>| #[trigger]
                answered_by(entries, method, route, c, bindings, outcome_model(result));
            if c < i {
                assert(entries[c].resolver.resolves(method, route, Some(bindings)));
            } else if i < c {
                assert(entries[i].resolver.resolves(method, route, None));
            }
        },
    }
}

/// No entry matches: a dispatch over standard resolvers gives nothing
/// exactly when the specification of no entry matches the route.
pub proof fn lemma_no_match_gives_nothing<H: RequestHandler>(
    entries: Seq<ResolverEntry<StandardResolver, H>>,
    method: MethodModel,
    route: Seq<Seq<char>>,
    outcome: Option<Result<View>>,
)
    requires
        dispatched(entries, method, route, outcome),
    ensures
        outcome is None <==> forall|j: int|
            0 <= j < entries.len() ==> resolve_spec(
                (#[trigger] entries[j]).resolver.method(),
                entries[j].resolver.tokens(),
                method,
                route,
            ) is None,
{
    match outcome {
        None => {
            assert forall|j: int| 0 <= j < entries.len() implies resolve_spec(
                (#[trigger] entries[j]).resolver.method(),
                entries[j].resolver.tokens(),
                method,
                route,
            ) is None by {
                assert(entries[j].resolver.resolves(method, route, None));
            }
        },
        Some(result) => {
            let (c, bindings) = choose|c: int, bindings: Map<Seq<char>, Seq<char>>| #[trigger]
                answered_by(entries, method, route, c, bindings, outcome_model(result));
            assert(entries[c].resolver.resolves(method, route, Some(bindings)));
        },
    }
}

} // verus!

verus! {

impl<R: Resolver, H: RequestHandler> From<RouterBuilder<R, H>> for Router<R, H> {
    /// The router that tries the entries of `builder` in the order in
    /// which they were bound.
    fn from(builder: RouterBuilder<R, H>) -> (router: Router<R, H>)
        ensures
            router.entries() == builder.entries(),
    {
        Router { resolvers: builder.resolvers }
    }
}

impl<R: Resolver, H: RequestHandler> vstd::std_specs::convert::FromSpecImpl<RouterBuilder<R, H>> for Router<R, H> {
    open spec fn obeys_from_spec() -> bool {
        true
    }

    closed spec fn from_spec(builder: RouterBuilder<R, H>) -> Router<R, H> {
        Router { resolvers: builder.resolvers }
    }
}

} // verus!
