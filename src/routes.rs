use vstd::prelude::*;
use crate::error::HttpError;
use crate::request::Request;
use crate::verb::HttpVerb;

verus! {

/// regex::Regex, a compiled pattern, carried opaquely.
#[verifier::external_type_specification]
#[verifier::external_body]
pub struct ExRegex(regex::Regex);

/// regex::Error, why a pattern did not compile, carried opaquely.
#[verifier::external_type_specification]
#[verifier::external_body]
pub struct ExRegexError(regex::Error);

/// Whether a pattern compiles (it is valid and within the default size limit).
pub uninterp spec fn pattern_compiles(pattern: Seq<char>) -> bool;

/// Whether a pattern matches somewhere in a text.
pub uninterp spec fn pattern_finds(pattern: Seq<char>, text: Seq<char>) -> bool;

/// Relies on regex::Regex::new: it succeeds exactly on the patterns that
/// compile.
#[verifier::external_body]
fn compile(pattern: &str) -> (r: Result<regex::Regex, regex::Error>)
    ensures
        r is Ok == pattern_compiles(pattern@),
{
    regex::Regex::new(pattern)
}

/// A compiled path pattern, together with the text it was compiled from.
pub struct Pattern {
    source: String,
    regex: regex::Regex,
}

impl View for Pattern {
    type V = Seq<char>;

    /// The text the pattern was compiled from.
    closed spec fn view(&self) -> Seq<char> {
        self.source@
    }
}

/// Relies on regex::Regex::is_match: whether the pattern matches anywhere in
/// the text; the regex of a `Pattern` is always compiled from its source.
#[verifier::external_body]
fn pattern_is_match(p: &Pattern, text: &str) -> (r: bool)
    ensures
        r == pattern_finds(p@, text@),
{
    p.regex.is_match(text)
}

impl Pattern {
    /// Compiles a path pattern; it fails where the pattern does not compile.
    pub fn new(source: &str) -> (r: Result<Pattern, HttpError>)
        ensures
            r is Ok == pattern_compiles(source@),
            r matches Ok(p) ==> p@ == source@,
    {
        match compile(source) {
            Ok(regex) => Ok(Pattern { source: String::from_str(source), regex }),
            Err(_) => Err(HttpError::new(String::from_str("Invalid path pattern"))),
        }
    }

    /// Whether the pattern matches anywhere in `text`.
    pub fn is_match(&self, text: &str) -> (r: bool)
        ensures
            r == pattern_finds(self@, text@),
    {
        pattern_is_match(self, text)
    }
}

/// A registered route: a path pattern and what handles it.
pub struct RouteEntry<H> {
    pub pattern: Pattern,
    pub handler: H,
}

/// The position of a verb's list in the registry.
pub open spec fn verb_index(v: HttpVerb) -> int {
    match v {
        HttpVerb::Get => 0,
        HttpVerb::Put => 1,
        HttpVerb::Post => 2,
        HttpVerb::Patch => 3,
        HttpVerb::Delete => 4,
        HttpVerb::Option => 5,
    }
}

fn verb_slot(v: HttpVerb) -> (r: usize)
    ensures
        r == verb_index(v),
{
    match v {
        HttpVerb::Get => 0,
        HttpVerb::Put => 1,
        HttpVerb::Post => 2,
        HttpVerb::Patch => 3,
        HttpVerb::Delete => 4,
        HttpVerb::Option => 5,
    }
}

/// The handler of the first route, in registration order, whose pattern
/// matches the path.
pub open spec fn first_match<H>(routes: Seq<(Seq<char>, H)>, path: Seq<char>) -> Option<H>
    decreases routes.len(),
{
    if routes.len() == 0 {
        None
    } else if pattern_finds(routes[0].0, path) {
        Some(routes[0].1)
    } else {
        first_match(routes.drop_first(), path)
    }
}

/// A verb's routes as (pattern text, handler) pairs, in registration order.
pub open spec fn entries_view<H>(es: Seq<RouteEntry<H>>) -> Seq<(Seq<char>, H)> {
    es.map_values(|e: RouteEntry<H>| (e.pattern@, e.handler))
}

/// For each verb, its routes in the order they were registered.
pub struct RequestMatcherMap<H> {
    lists: Vec<Vec<RouteEntry<H>>>,
}

impl<H> View for RequestMatcherMap<H> {
    type V = Seq<Seq<(Seq<char>, H)>>;

    closed spec fn view(&self) -> Seq<Seq<(Seq<char>, H)>> {
        self.lists@.map_values(|l: Vec<RouteEntry<H>>| entries_view(l@))
    }
}

impl<H> RequestMatcherMap<H> {
    /// Every verb has a list.
    pub closed spec fn wf(&self) -> bool {
        self.lists@.len() == 6
    }

    /// A registry with an empty list for every verb.
    pub fn new() -> (r: RequestMatcherMap<H>)
        ensures
            r.wf(),
            r@.len() == 6,
            forall|i: int| 0 <= i < 6 ==> (#[trigger] r@[i]).len() == 0,
    {
        let mut lists: Vec<Vec<RouteEntry<H>>> = Vec::new();
        let mut i: usize = 0;
        while i < 6
            invariant
                i <= 6,
                lists@.len() == i,
                forall|k: int| 0 <= k < i ==> (#[trigger] lists@[k])@.len() == 0,
            decreases 6 - i,
        {
            lists.push(Vec::new());
            i = i + 1;
        }
        let r = RequestMatcherMap { lists };
        assert forall|k: int| 0 <= k < 6 implies (#[trigger] r@[k]).len() == 0 by {
            assert(r@[k] == entries_view(r.lists@[k]@));
        }
        r
    }

    /// Appends a route to the verb's list; the other verbs' lists are
    /// untouched.
    pub fn add_matcher(&mut self, verb: HttpVerb, path_pattern: Pattern, handler: H) -> (r: Result<
        (),
        HttpError,
    >)
        requires
            old(self).wf(),
        ensures
            r is Ok,
            final(self).wf(),
            final(self)@ == old(self)@.update(
                verb_index(verb),
                old(self)@[verb_index(verb)].push((path_pattern@, handler)),
            ),
    {
        let k = verb_slot(verb);
        let ghost pv = path_pattern@;
        let mut list: Vec<RouteEntry<H>> = Vec::new();
        self.lists.set_and_swap(k, &mut list);
        let ghost before = list@;
        list.push(RouteEntry { pattern: path_pattern, handler });
        self.lists.set_and_swap(k, &mut list);
        proof {
            assert(entries_view(self.lists@[k as int]@) =~= entries_view(before).push((pv, handler)));
            assert(self@ =~= old(self)@.update(
                verb_index(verb),
                old(self)@[verb_index(verb)].push((pv, handler)),
            ));
        }
        Ok(())
    }

    /// The handler of the first route under the request's verb, in
    /// registration order, whose pattern matches the request's path.
    pub fn match_request(&self, request: &Request) -> (r: Option<&H>)
        requires
            self.wf(),
        ensures
            match r {
                Some(h) => first_match(self@[verb_index(request.verb)], request.path@) == Some(*h),
                None => first_match(self@[verb_index(request.verb)], request.path@) is None,
            },
    {
        let list = &self.lists[verb_slot(request.verb)];
        let ghost es = entries_view(list@);
        assert(es == self@[verb_index(request.verb)]);
        assert(es.subrange(0, es.len() as int) == es);
        let mut i: usize = 0;
        while i < list.len()
            invariant
                i <= list@.len(),
                es == entries_view(list@),
                es == self@[verb_index(request.verb)],
                es.len() == list@.len(),
                first_match(es, request.path@) == first_match(es.subrange(i as int, es.len() as int), request.path@),
            decreases list@.len() - i,
        {
            let e = &list[i];
            proof {
                let rest = es.subrange(i as int, es.len() as int);
                assert(rest.len() > 0);
                assert(rest[0] == es[i as int]);
                assert(es[i as int] == (list@[i as int].pattern@, list@[i as int].handler));
                assert(rest.drop_first() =~= es.subrange(i + 1, es.len() as int));
            }
            if e.pattern.is_match(request.path.as_str()) {
                proof {
                    let rest = es.subrange(i as int, es.len() as int);
                    assert(rest[0].0 == e.pattern@);
                    assert(first_match(rest, request.path@) == Some(e.handler));
                }
                return Some(&e.handler);
            }
            i = i + 1;
        }
        None
    }
}

/// The first route whose pattern matches is the one that answers.
proof fn lemma_first_match_at<H>(routes: Seq<(Seq<char>, H)>, i: int, path: Seq<char>)
    requires
        0 <= i < routes.len(),
        pattern_finds(routes[i].0, path),
        forall|k: int| 0 <= k < i ==> !pattern_finds(#[trigger] routes[k].0, path),
    ensures
        first_match(routes, path) == Some(routes[i].1),
    decreases i,
{
    if i > 0 {
        let rest = routes.drop_first();
        assert forall|k: int| 0 <= k < i - 1 implies !pattern_finds(#[trigger] rest[k].0, path) by {
            assert(rest[k] == routes[k + 1]);
        }
        assert(!pattern_finds(routes[0].0, path));
        lemma_first_match_at(rest, i - 1, path);
    }
}

/// Where no route answers, no pattern matches.
proof fn lemma_no_route_matches<H>(routes: Seq<(Seq<char>, H)>, path: Seq<char>)
    requires
        first_match(routes, path) is None,
    ensures
        forall|k: int| 0 <= k < routes.len() ==> !pattern_finds(#[trigger] routes[k].0, path),
    decreases routes.len(),
{
    if routes.len() > 0 {
        let rest = routes.drop_first();
        lemma_no_route_matches(rest, path);
        assert forall|k: int| 0 <= k < routes.len() implies !pattern_finds(#[trigger] routes[k].0, path) by {
            if k > 0 {
                assert(rest[k - 1] == routes[k]);
            }
        }
    }
}

/// When two routes of a verb both match a path, the one registered earlier
/// answers (provided no route before it matches).
pub proof fn lemma_earlier_route_wins<H>(routes: Seq<(Seq<char>, H)>, i: int, j: int, path: Seq<char>)
    requires
        0 <= i < j < routes.len(),
        pattern_finds(routes[i].0, path),
        pattern_finds(routes[j].0, path),
        forall|k: int| 0 <= k < i ==> !pattern_finds(#[trigger] routes[k].0, path),
    ensures
        first_match(routes, path) == Some(routes[i].1),
{
    lemma_first_match_at(routes, i, path);
}

/// After a route is registered under a verb, a request with that verb and a
/// path its pattern matches is answered by its handler, where no earlier
/// route of the verb matched; the lists of the other verbs answer as before,
/// so an empty one answers nothing.
pub proof fn lemma_registered_route_matches<H>(
    before: Seq<Seq<(Seq<char>, H)>>,
    v: HttpVerb,
    u: HttpVerb,
    pattern: Seq<char>,
    handler: H,
    path: Seq<char>,
)
    requires
        before.len() == 6,
        pattern_finds(pattern, path),
        first_match(before[verb_index(v)], path) is None,
    ensures
        ({
            let after = before.update(
                verb_index(v),
                before[verb_index(v)].push((pattern, handler)),
            );
            &&& first_match(after[verb_index(v)], path) == Some(handler)
            &&& u != v ==> first_match(after[verb_index(u)], path) == first_match(
                before[verb_index(u)],
                path,
            )
            &&& u != v && before[verb_index(u)].len() == 0 ==> first_match(
                after[verb_index(u)],
                path,
            ) is None
        }),
{
    let old_list = before[verb_index(v)];
    let list = old_list.push((pattern, handler));
    lemma_no_route_matches(old_list, path);
    assert forall|k: int| 0 <= k < old_list.len() implies !pattern_finds(#[trigger] list[k].0, path) by {
        assert(list[k] == old_list[k]);
    }
    lemma_first_match_at(list, old_list.len() as int, path);
    if u != v {
        assert(verb_index(u) != verb_index(v));
    }
}

} // verus!
