//! Route resolution: a route specification is compiled into a list of
//! tokens, and a requested route matches it when every token accepts the
//! segment at its own position and no segment is left over.

use vstd::prelude::*;
use vstd::hash_map::StringHashMap;
use vstd::string::StrSliceExecFns;
use crate::error::RouteSpecError;
use crate::error::RouteSpecErrorModel;
use crate::method::Method;
use crate::method::MethodModel;
use crate::text::owned_segments;
use crate::text::segments;
use crate::text::str_eq;
use crate::text::IntoText;

verus! {

/// The variables of a matched route, each bound to the segment it matched.
///
/// The name of a variable includes its markers: the leading `:` and, for an
/// optional variable, the trailing `?`.
pub struct RouteMap {
    entries: StringHashMap<String>,
}

impl View for RouteMap {
    type V = Map<Seq<char>, Seq<char>>;

    closed spec fn view(&self) -> Map<Seq<char>, Seq<char>> {
        self.entries@.map_values(|value: String| value@)
    }
}

impl RouteMap {
    /// A map without bindings.
    pub fn new() -> (map: RouteMap)
        ensures
            map@ == Map::<Seq<char>, Seq<char>>::empty(),
    {
        let map = RouteMap { entries: StringHashMap::new() };
        assert(map@ =~= Map::<Seq<char>, Seq<char>>::empty());
        map
    }

    /// Binds `name` to `value`, replacing an earlier binding of `name`.
    pub fn insert(&mut self, name: String, value: String)
        ensures
            final(self)@ == old(self)@.insert(name@, value@),
    {
        self.entries.insert(name, value);
        assert(self@ =~= old(self)@.insert(name@, value@));
    }

    /// The value bound to `name`, if there is one.
    pub fn get(&self, name: &str) -> (value: Option<&String>)
        ensures
            match value {
                Some(text) => self@.contains_key(name@) && text@ == self@[name@],
                None => !self@.contains_key(name@),
            },
    {
        self.entries.get(name)
    }

    /// Whether `name` is bound.
    pub fn contains_key(&self, name: &str) -> (bound: bool)
        ensures
            bound == self@.contains_key(name@),
    {
        self.entries.contains_key(name)
    }

    /// The number of bindings.
    pub fn len(&self) -> (count: usize)
        ensures
            count == self@.len(),
    {
        assert(self@.dom() =~= self.entries@.dom());
        self.entries.len()
    }

    /// Whether the map holds no binding.
    pub fn is_empty(&self) -> (empty: bool)
        ensures
            empty == (self@.len() == 0),
    {
        self.len() == 0
    }
}

/// What a resolver is asked to resolve.
pub struct ResolveParams<'a> {
    /// The method of the request.
    pub method: Method,
    /// The requested route, one entry per segment.
    pub route: Vec<&'a str>,
}

/// What a resolver found, with the bindings as a map of sequences of
/// characters.
pub open spec fn found_model(found: Option<RouteMap>) -> Option<Map<Seq<char>, Seq<char>>> {
    match found {
        Some(map) => Some(map@),
        None => None,
    }
}

/// Decides whether a route is accepted, and with which bindings.
pub trait Resolver: Send + Sync {
    /// Whether `found` is something this resolver may answer for `route`
    /// requested with `method`: the bindings with which it accepts the
    /// route, or `None` where it declines. A resolver that does not say
    /// promises nothing.
    open spec fn resolves(
        &self,
        method: MethodModel,
        route: Seq<Seq<char>>,
        found: Option<Map<Seq<char>, Seq<char>>>,
    ) -> bool {
        true
    }

    /// Attempts to resolve `params`: the filled map on success, `None`
    /// otherwise.
    fn resolve(&self, params: &ResolveParams) -> (found: Option<RouteMap>)
        ensures
            self.resolves(params.method@, params.route.deep_view(), found_model(found)),
    ;
}

/// One token of a compiled route specification.
enum Token {
    /// Matches a segment that equals the text held here.
    Literal(String),
    /// Matches any segment, and binds it to the name held here.
    Variable(String),
    /// Matches any segment or none, and binds the segment or the empty
    /// string to the name held here.
    Optional(String),
}

/// What a [`Token`] is, with its text as a sequence of characters.
pub enum TokenModel {
    Literal(Seq<char>),
    Variable(Seq<char>),
    Optional(Seq<char>),
}

impl TokenModel {
    /// Whether a match binds a value to this token.
    pub open spec fn binds(self) -> bool {
        !(self is Literal)
    }

    /// The text of a literal, or the name of a variable.
    pub open spec fn name(self) -> Seq<char> {
        match self {
            TokenModel::Literal(text) => text,
            TokenModel::Variable(name) => name,
            TokenModel::Optional(name) => name,
        }
    }
}

impl View for Token {
    type V = TokenModel;

    closed spec fn view(&self) -> TokenModel {
        match self {
            Token::Literal(text) => TokenModel::Literal(text@),
            Token::Variable(name) => TokenModel::Variable(name@),
            Token::Optional(name) => TokenModel::Optional(name@),
        }
    }
}

impl DeepView for Token {
    type V = TokenModel;

    closed spec fn deep_view(&self) -> TokenModel {
        self@
    }
}

/// The token that one segment of a route specification stands for: a
/// variable if it starts with `:`, optional if it also ends with `?`, and a
/// literal otherwise.
pub open spec fn classify(segment: Seq<char>) -> TokenModel {
    if segment.len() > 0 && segment[0] == ':' {
        if segment.last() == '?' {
            TokenModel::Optional(segment)
        } else {
            TokenModel::Variable(segment)
        }
    } else {
        TokenModel::Literal(segment)
    }
}

/// The tokens that the segments of a route specification stand for.
pub open spec fn classify_all(segments: Seq<Seq<char>>) -> Seq<TokenModel> {
    Seq::new(segments.len(), |i: int| classify(segments[i]))
}

/// Whether the token at `j` binds a name that an earlier token binds too.
pub open spec fn repeats_name(tokens: Seq<TokenModel>, j: int) -> bool {
    &&& 0 <= j < tokens.len()
    &&& tokens[j].binds()
    &&& exists|i: int| 0 <= i < j && tokens[i].binds() && #[trigger] tokens[i].name() == tokens[j].name()
}

/// Whether no two tokens bind the same name.
pub open spec fn unique_names(tokens: Seq<TokenModel>) -> bool {
    forall|j: int| !repeats_name(tokens, j)
}

/// Whether `j` is the first position whose token repeats an earlier name.
pub open spec fn first_repeat(tokens: Seq<TokenModel>, j: int) -> bool {
    &&& repeats_name(tokens, j)
    &&& forall|k: int| 0 <= k < j ==> !repeats_name(tokens, k)
}

/// Whether `token`, standing at position `i` of a specification, accepts
/// `route`.
pub open spec fn token_accepts(token: TokenModel, route: Seq<Seq<char>>, i: int) -> bool {
    match token {
        TokenModel::Literal(text) => i < route.len() && route[i] == text,
        TokenModel::Variable(_) => i < route.len(),
        TokenModel::Optional(_) => true,
    }
}

/// Whether every token accepts `route` and no segment is left over.
pub open spec fn route_matches(tokens: Seq<TokenModel>, route: Seq<Seq<char>>) -> bool {
    &&& route.len() <= tokens.len()
    &&& forall|i: int| 0 <= i < tokens.len() ==> token_accepts(#[trigger] tokens[i], route, i)
}

/// The segment at position `i` of `route`, or the empty string if the route
/// ends before it.
pub open spec fn bound_value(route: Seq<Seq<char>>, i: int) -> Seq<char> {
    if 0 <= i < route.len() {
        route[i]
    } else {
        Seq::empty()
    }
}

/// Whether the token at `i` binds `name`.
pub open spec fn binds_at(tokens: Seq<TokenModel>, i: int, name: Seq<char>) -> bool {
    0 <= i < tokens.len() && tokens[i].binds() && tokens[i].name() == name
}

/// The bindings of a match: every variable of the specification, bound to
/// the segment at its position.
pub open spec fn bindings(tokens: Seq<TokenModel>, route: Seq<Seq<char>>) -> Map<
    Seq<char>,
    Seq<char>,
> {
    Map::new(
        |name: Seq<char>| exists|i: int| binds_at(tokens, i, name),
        |name: Seq<char>| bound_value(route, choose|i: int| binds_at(tokens, i, name)),
    )
}

/// What resolving `route`, requested with `requested`, yields for a
/// specification of `tokens` bound to `method`.
pub open spec fn resolve_spec(
    method: MethodModel,
    tokens: Seq<TokenModel>,
    requested: MethodModel,
    route: Seq<Seq<char>>,
) -> Option<Map<Seq<char>, Seq<char>>> {
    if requested == method && route_matches(tokens, route) {
        Some(bindings(tokens, route))
    } else {
        None
    }
}

/// With unique names, each variable is bound to the segment at its own
/// position.
pub proof fn lemma_binding_at(tokens: Seq<TokenModel>, route: Seq<Seq<char>>, i: int)
    requires
        unique_names(tokens),
        0 <= i < tokens.len(),
        tokens[i].binds(),
    ensures
        bindings(tokens, route).contains_key(tokens[i].name()),
        bindings(tokens, route)[tokens[i].name()] == bound_value(route, i),
{
    let name = tokens[i].name();
    assert(binds_at(tokens, i, name));
    let c = choose|c: int| binds_at(tokens, c, name);
    if c < i {
        assert(repeats_name(tokens, i));
    } else if i < c {
        assert(repeats_name(tokens, c));
    }
}

/// The bindings of the first `i + 1` tokens are those of the first `i`,
/// extended by what the token at `i` binds.
pub proof fn lemma_bindings_step(tokens: Seq<TokenModel>, route: Seq<Seq<char>>, i: int)
    requires
        unique_names(tokens),
        0 <= i < tokens.len(),
    ensures
        bindings(tokens.take(i + 1), route) == if tokens[i].binds() {
            bindings(tokens.take(i), route).insert(tokens[i].name(), bound_value(route, i))
        } else {
            bindings(tokens.take(i), route)
        },
{
    let shorter = tokens.take(i);
    let longer = tokens.take(i + 1);
    lemma_unique_names_take(tokens, i);
    lemma_unique_names_take(tokens, i + 1);
    let expected = if tokens[i].binds() {
        bindings(shorter, route).insert(tokens[i].name(), bound_value(route, i))
    } else {
        bindings(shorter, route)
    };
    let full = bindings(longer, route);
    assert forall|name: Seq<char>| #[trigger] full.dom().contains(name) implies expected.dom().contains(name)
        && expected[name] == full[name] by {
        let c = choose|c: int| binds_at(longer, c, name);
        lemma_binding_at(longer, route, c);
        assert(longer[c] == tokens[c]);
        if c < i {
            assert(shorter[c] == tokens[c]);
            assert(binds_at(shorter, c, name));
            lemma_binding_at(shorter, route, c);
            if tokens[i].binds() && tokens[i].name() == name {
                assert(longer[i] == tokens[i]);
                assert(repeats_name(longer, i));
            }
        } else {
            assert(c == i);
        }
    }
    assert forall|name: Seq<char>| #[trigger] expected.dom().contains(name) implies full.dom().contains(name) by {
        if bindings(shorter, route).dom().contains(name) {
            let c = choose|c: int| binds_at(shorter, c, name);
            assert(longer[c] == shorter[c]);
            assert(binds_at(longer, c, name));
        } else {
            assert(longer[i] == tokens[i]);
            assert(binds_at(longer, i, name));
        }
    }
    assert(full =~= expected);
}

/// A prefix of tokens with unique names has unique names.
pub proof fn lemma_unique_names_take(tokens: Seq<TokenModel>, n: int)
    requires
        unique_names(tokens),
        0 <= n <= tokens.len(),
    ensures
        unique_names(tokens.take(n)),
{
    let prefix = tokens.take(n);
    assert forall|j: int| !repeats_name(prefix, j) by {
        if repeats_name(prefix, j) {
            let i = choose|i: int| 0 <= i < j && prefix[i].binds() && #[trigger] prefix[i].name() == prefix[j].name();
            assert(tokens[i].name() == tokens[j].name());
            assert(repeats_name(tokens, j));
        }
    }
}

} // verus!

verus! {

/// Classifies one segment of a route specification.
fn classify_segment(segment: String) -> (token: Token)
    ensures
        token@ == classify(segment@),
{
    let length = segment.as_str().unicode_len();
    if length > 0 && segment.as_str().get_char(0) == ':' {
        if segment.as_str().get_char(length - 1) == '?' {
            Token::Optional(segment)
        } else {
            Token::Variable(segment)
        }
    } else {
        Token::Literal(segment)
    }
}

/// Whether one of `tokens` binds `name`.
fn binds_name(tokens: &Vec<Token>, name: &str) -> (found: bool)
    ensures
        found == exists|i: int| binds_at(tokens.deep_view(), i, name@),
{
    let mut i: usize = 0;
    while i < tokens.len()
        invariant
            i <= tokens.len(),
            forall|k: int| 0 <= k < i ==> !binds_at(tokens.deep_view(), k, name@),
        decreases tokens.len() - i,
    {
        let same = match &tokens[i] {
            Token::Literal(_) => false,
            Token::Variable(bound) => str_eq(bound.as_str(), name),
            Token::Optional(bound) => str_eq(bound.as_str(), name),
        };
        assert(tokens.deep_view()[i as int] == tokens[i as int]@);
        if same {
            assert(binds_at(tokens.deep_view(), i as int, name@));
            return true;
        }
        i = i + 1;
    }
    false
}

/// The standard route resolver.
///
/// Its specification holds three kinds of token:
/// * a literal matches the segment at its position exactly;
/// * a variable, written with a leading `:`, matches any segment and binds
///   it to its name;
/// * an optional variable, written with a leading `:` and a trailing `?`,
///   matches any segment or none, and binds the empty string when the
///   route ends before it.
///
/// A route with more segments than the specification has tokens is not
/// matched. No two variables of a specification share a name.
pub struct StandardResolver {
    method: Method,
    spec: Vec<Token>,
}

impl StandardResolver {
    #[verifier::type_invariant]
    spec fn well_formed(self) -> bool {
        unique_names(self.spec.deep_view())
    }

    /// The method that a request must have.
    pub closed spec fn method(&self) -> MethodModel {
        self.method@
    }

    /// The tokens of the specification.
    pub closed spec fn tokens(&self) -> Seq<TokenModel> {
        self.spec.deep_view()
    }

    /// Creates a resolver that requires `method` and follows `spec`, given
    /// one segment per entry.
    ///
    /// Fails if two variables share a name, with the name of the first
    /// variable that repeats an earlier one.
    pub fn new(method: Method, spec: Vec<String>) -> (made: core::result::Result<
        StandardResolver,
        RouteSpecError,
    >)
        ensures
            match made {
                Ok(resolver) => {
                    &&& resolver.method() == method@
                    &&& resolver.tokens() == classify_all(spec.deep_view())
                    &&& unique_names(resolver.tokens())
                },
                Err(error) => exists|j: int|
                    {
                        &&& first_repeat(classify_all(spec.deep_view()), j)
                        &&& error@ == RouteSpecErrorModel::DuplicateVariable(
                            #[trigger] classify_all(spec.deep_view())[j].name(),
                        )
                    },
            },
    {
        let ghost given = spec@;
        let ghost all = classify_all(spec.deep_view());
        let mut tokens: Vec<Token> = Vec::new();
        for segment in it: spec
            invariant
                it.seq() == given,
                given == spec@,
                all == classify_all(spec.deep_view()),
                tokens.deep_view() == all.take(it.index() as int),
                forall|k: int| 0 <= k < it.index() ==> !repeats_name(all, k),
        {
            let ghost i = it.index() as int;
            let token = classify_segment(segment);
            assert(token@ == all[i]);
            let repeated = match &token {
                Token::Literal(_) => false,
                Token::Variable(name) => binds_name(&tokens, name.as_str()),
                Token::Optional(name) => binds_name(&tokens, name.as_str()),
            };
            proof {
                if repeated {
                    let w = choose|w: int| binds_at(tokens.deep_view(), w, token@.name());
                    assert(all.take(i)[w] == all[w]);
                    assert(all[w].name() == all[i].name());
                    assert(repeats_name(all, i));
                } else if repeats_name(all, i) {
                    let w = choose|w: int|
                        0 <= w < i && all[w].binds() && #[trigger] all[w].name() == all[i].name();
                    assert(all.take(i)[w] == all[w]);
                    assert(binds_at(tokens.deep_view(), w, token@.name()));
                }
            }
            if repeated {
                let name = match token {
                    Token::Literal(text) => text,
                    Token::Variable(name) => name,
                    Token::Optional(name) => name,
                };
                assert(first_repeat(all, i));
                return Err(RouteSpecError::DuplicateVariable(name));
            }
            let ghost before = tokens.deep_view();
            tokens.push(token);
            assert(tokens.deep_view() == before.push(token@));
            assert(all.take(i + 1) == all.take(i).push(all[i]));
        }
        assert(all.take(all.len() as int) == all);
        assert forall|j: int| !repeats_name(all, j) by {}
        Ok(StandardResolver { method, spec: tokens })
    }

    /// Compiles the route specification `spec` into a resolver that
    /// requires `method`: the specification is split on `/`, empty
    /// segments are dropped, and each segment becomes a token.
    ///
    /// Fails if two variables share a name, with the name of the first
    /// variable that repeats an earlier one.
    pub fn compile<T: IntoText>(method: Method, spec: T) -> (made: core::result::Result<
        StandardResolver,
        RouteSpecError,
    >)
        ensures
            match made {
                Ok(resolver) => {
                    &&& resolver.method() == method@
                    &&& resolver.tokens() == classify_all(segments(spec.text()))
                    &&& unique_names(resolver.tokens())
                },
                Err(error) => exists|j: int|
                    {
                        &&& first_repeat(classify_all(segments(spec.text())), j)
                        &&& error@ == RouteSpecErrorModel::DuplicateVariable(
                            #[trigger] classify_all(segments(spec.text()))[j].name(),
                        )
                    },
            },
    {
        let spec = spec.into_text();
        StandardResolver::new(method, owned_segments(spec.as_str()))
    }
}

} // verus!

verus! {

impl Resolver for StandardResolver {
    /// The standard resolver answers exactly what its specification
    /// says of the route.
    open spec fn resolves(
        &self,
        method: MethodModel,
        route: Seq<Seq<char>>,
        found: Option<Map<Seq<char>, Seq<char>>>,
    ) -> bool {
        found == resolve_spec(self.method(), self.tokens(), method, route)
    }

    fn resolve(&self, params: &ResolveParams) -> (found: Option<RouteMap>) {
        proof {
            use_type_invariant(self);
        }
        let ghost tokens = self.spec.deep_view();
        let ghost route = params.route.deep_view();
        if !params.method.same(&self.method) {
            return None;
        }
        let mut map = RouteMap::new();
        let mut i: usize = 0;
        assert(bindings(tokens.take(0), route) =~= Map::<Seq<char>, Seq<char>>::empty());
        while i < self.spec.len()
            invariant
                i <= self.spec.len(),
                tokens == self.spec.deep_view(),
                route == params.route.deep_view(),
                unique_names(tokens),
                forall|k: int| 0 <= k < i ==> token_accepts(#[trigger] tokens[k], route, k),
                map@ == bindings(tokens.take(i as int), route),
            decreases self.spec.len() - i,
        {
            proof {
                lemma_bindings_step(tokens, route, i as int);
                assert(tokens[i as int] == self.spec[i as int]@);
                if i < params.route.len() {
                    assert(route[i as int] == params.route[i as int]@);
                }
            }
            match &self.spec[i] {
                Token::Literal(expected) => {
                    if i >= params.route.len() {
                        assert(!token_accepts(tokens[i as int], route, i as int));
                        return None;
                    }
                    if !str_eq(params.route[i], expected.as_str()) {
                        assert(!token_accepts(tokens[i as int], route, i as int));
                        return None;
                    }
                },
                Token::Variable(name) => {
                    if i >= params.route.len() {
                        assert(!token_accepts(tokens[i as int], route, i as int));
                        return None;
                    }
                    map.insert(name.clone(), params.route[i].to_owned());
                },
                Token::Optional(name) => {
                    let text = if i < params.route.len() {
                        params.route[i].to_owned()
                    } else {
                        String::new()
                    };
                    map.insert(name.clone(), text);
                },
            }
            i = i + 1;
        }
        assert(tokens.take(i as int) == tokens);
        if i < params.route.len() {
            None
        } else {
            Some(map)
        }
    }
}

} // verus!

verus! {

/// A specification of literals alone accepts exactly the route whose
/// segments are its literals, one for one, and binds nothing: a route of
/// another length, or with another segment at some position, is declined.
pub proof fn lemma_literals_match_exactly(
    method: MethodModel,
    tokens: Seq<TokenModel>,
    route: Seq<Seq<char>>,
)
    requires
        forall|i: int| 0 <= i < tokens.len() ==> tokens[i] is Literal,
    ensures
        route_matches(tokens, route) <==> route == Seq::new(
            tokens.len(),
            |i: int| tokens[i].name(),
        ),
        resolve_spec(method, tokens, method, route) == if route == Seq::new(
            tokens.len(),
            |i: int| tokens[i].name(),
        ) {
            Some(Map::<Seq<char>, Seq<char>>::empty())
        } else {
            None
        },
{
    let literals = Seq::new(tokens.len(), |i: int| tokens[i].name());
    if route_matches(tokens, route) {
        if route.len() < tokens.len() {
            assert(token_accepts(tokens[tokens.len() - 1], route, tokens.len() - 1));
        }
        assert forall|i: int| 0 <= i < tokens.len() implies route[i] == literals[i] by {
            assert(token_accepts(tokens[i], route, i));
        }
        assert(route =~= literals);
    }
    if route == literals {
        assert forall|i: int| 0 <= i < tokens.len() implies token_accepts(
            #[trigger] tokens[i],
            route,
            i,
        ) by {
            assert(route[i] == tokens[i].name());
        }
    }
    assert(bindings(tokens, route) =~= Map::<Seq<char>, Seq<char>>::empty());
}

/// A specification of one variable accepts every route of one segment, and
/// binds the variable to that segment and nothing else.
pub proof fn lemma_single_variable(method: MethodModel, name: Seq<char>, segment: Seq<char>)
    requires
        classify(name) is Variable,
    ensures
        resolve_spec(method, classify_all(seq![name]), method, seq![segment]) == Some(
            Map::<Seq<char>, Seq<char>>::empty().insert(name, segment),
        ),
        Map::<Seq<char>, Seq<char>>::empty().insert(name, segment).len() == 1,
{
    let tokens = classify_all(seq![name]);
    let route = seq![segment];
    assert(tokens =~= seq![classify(name)]);
    lemma_single_binder(classify(name), route);
}

/// A specification of one optional variable accepts the empty route, and
/// binds the variable to the empty string; it accepts a route of one
/// segment, and binds the variable to that segment; it declines every
/// longer route.
pub proof fn lemma_single_optional(method: MethodModel, name: Seq<char>, route: Seq<Seq<char>>)
    requires
        classify(name) is Optional,
    ensures
        resolve_spec(method, classify_all(seq![name]), method, route) == if route.len() == 0 {
            Some(Map::<Seq<char>, Seq<char>>::empty().insert(name, Seq::<char>::empty()))
        } else if route.len() == 1 {
            Some(Map::<Seq<char>, Seq<char>>::empty().insert(name, route[0]))
        } else {
            None
        },
{
    let tokens = classify_all(seq![name]);
    assert(tokens =~= seq![classify(name)]);
    lemma_single_binder(classify(name), route);
}

/// The bindings of a specification of one variable: that variable, bound
/// to the first segment of the route or to the empty string.
proof fn lemma_single_binder(token: TokenModel, route: Seq<Seq<char>>)
    requires
        token.binds(),
    ensures
        bindings(seq![token], route) == Map::<Seq<char>, Seq<char>>::empty().insert(
            token.name(),
            bound_value(route, 0),
        ),
        Map::<Seq<char>, Seq<char>>::empty().insert(token.name(), bound_value(route, 0)).len() == 1,
        unique_names(seq![token]),
{
    let tokens = seq![token];
    let expected = Map::<Seq<char>, Seq<char>>::empty().insert(token.name(), bound_value(route, 0));
    assert forall|j: int| !repeats_name(tokens, j) by {}
    assert(binds_at(tokens, 0, token.name()));
    lemma_binding_at(tokens, route, 0);
    assert forall|name: Seq<char>| #[trigger]
        bindings(tokens, route).dom().contains(name) implies expected.dom().contains(name) by {
        let c = choose|c: int| binds_at(tokens, c, name);
        assert(c == 0);
    }
    assert(bindings(tokens, route) =~= expected);
    assert(expected.dom() =~= set![token.name()]);
}

/// A specification in which a variable stands twice does not have unique
/// names, whatever else it holds: it is one of those that
/// [`StandardResolver::new`] refuses.
pub proof fn lemma_repeated_variable_is_refused(segments: Seq<Seq<char>>, i: int, j: int)
    requires
        0 <= i < j < segments.len(),
        classify(segments[i]).binds(),
        segments[i] == segments[j],
    ensures
        !unique_names(classify_all(segments)),
{
    let tokens = classify_all(segments);
    assert(tokens[i].name() == tokens[j].name());
    assert(repeats_name(tokens, j));
}

} // verus!
