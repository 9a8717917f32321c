//! Routing of requests to handlers by method and path, over the radix trees of
//! the `matchit` crate.
use vstd::prelude::*;
use crate::strmap::StrMap;
use crate::text::{owned, to_uppercase, unicode_uppercase};
use matchit::Router as RadixTree;

verus! {

#[verifier::external_type_specification]
#[verifier::external_body]
#[verifier::reject_recursive_types(T)]
pub struct ExRadixTree<T>(RadixTree<T>);

/// The routes offered to a `matchit` router, in order, with their values
/// (insertions that the router refused included).
pub uninterp spec fn matchit_routes(r: RadixTree<usize>) -> Seq<(Seq<char>, usize)>;

/// The name of `matchit::Router::at`: for the routes offered to a router and a
/// path, the value of the route that matches and the path parameters it binds,
/// in order.
pub uninterp spec fn matchit_lookup(routes: Seq<(Seq<char>, usize)>, path: Seq<char>) -> Option<(usize, Seq<(Seq<char>, Seq<char>)>)>;

/// The name of `matchit::Router::insert`: for the routes already offered and a
/// new route, the text of the error it reports, or nothing when it accepts the
/// route.
pub uninterp spec fn matchit_insert_error(routes: Seq<(Seq<char>, usize)>, route: Seq<char>) -> Option<Seq<char>>;

/// `matchit::Router::new`: a router with no routes.
#[verifier::external_body]
pub(crate) fn matchit_new() -> (res: RadixTree<usize>)
    ensures
        matchit_routes(res) == Seq::<(Seq<char>, usize)>::empty(),
{
    RadixTree::new()
}

/// The number of `{` characters in `s`.
pub open spec fn open_brace_count(s: Seq<char>) -> nat
    decreases s.len(),
{
    if s.len() == 0 {
        0
    } else {
        open_brace_count(s.drop_last()) + if s.last() == '{' { 1nat } else { 0nat }
    }
}

/// Whether a route has too many `{` for the router: `matchit` names the
/// parameters of a route `a` to `z` and panics at the 26th, and every
/// parameter opens with a `{`.
pub open spec fn too_many_params(route: Seq<char>) -> bool {
    open_brace_count(route) >= 26
}

/// The number of `{` characters in `s`.
pub fn count_open_braces(s: &str) -> (res: usize)
    ensures
        res == open_brace_count(s@),
{
    let v = crate::text::chars_of(s);
    let mut n: usize = 0;
    let mut i: usize = 0;
    while i < v.len()
        invariant
            i <= v@.len(),
            n == open_brace_count(v@.subrange(0, i as int)),
            n <= i,
        decreases v.len() - i,
    {
        assert(v@.subrange(0, i as int + 1).drop_last() =~= v@.subrange(0, i as int));
        if v[i] == '{' {
            n = n + 1;
        }
        i = i + 1;
    }
    assert(v@.subrange(0, v@.len() as int) =~= v@);
    n
}

/// `matchit::Router::insert`, with the error turned into its text. The crate
/// panics on a route with 26 or more parameters (it runs out of the letters it
/// renames them to), so routes with that many `{` are left out.
#[verifier::external_body]
pub(crate) fn matchit_insert(r: &mut RadixTree<usize>, route: &str, value: usize) -> (res: Result<(), String>)
    requires
        !too_many_params(route@),
    ensures
        matchit_routes(*final(r)) == matchit_routes(*old(r)).push((route@, value)),
        match matchit_insert_error(matchit_routes(*old(r)), route@) {
            None => res is Ok,
            Some(m) => res matches Err(e) && e@ == m,
        },
{
    r.insert(route, value).map_err(|e| e.to_string())
}

/// The views of a list of string pairs.
pub open spec fn pair_views(v: Seq<(String, String)>) -> Seq<(Seq<char>, Seq<char>)> {
    v.map_values(|p: (String, String)| (p.0@, p.1@))
}

/// `matchit::Router::at`, with the match turned into its value and its
/// parameters as owned strings; the value is one that was offered with a
/// route (the router holds no other).
#[verifier::external_body]
pub(crate) fn matchit_at(r: &RadixTree<usize>, path: &str) -> (res: Option<(usize, Vec<(String, String)>)>)
    ensures
        match matchit_lookup(matchit_routes(*r), path@) {
            Some((v, ps)) => res matches Some(x) && x.0 == v && pair_views(x.1@) == ps,
            None => res is None,
        },
        res matches Some(x) ==> exists|i: int| 0 <= i < matchit_routes(*r).len() && (#[trigger] matchit_routes(*r)[i]).1 == x.0,
{
    match r.at(path) {
        Ok(m) => Some((*m.value, m.params.iter().map(|(k, v)| (k.to_string(), v.to_string())).collect())),
        Err(_) => None,
    }
}

/// The map that inserting the pairs in turn builds (a later key replaces an
/// earlier one).
pub open spec fn pairs_map(ps: Seq<(Seq<char>, Seq<char>)>) -> Map<Seq<char>, Seq<char>>
    decreases ps.len(),
{
    if ps.len() == 0 {
        Map::empty()
    } else {
        pairs_map(ps.drop_last()).insert(ps.last().0, ps.last().1)
    }
}

/// A matched route: the handler and the path parameters.
pub struct RouteMatch {
    pub handler_id: usize,
    pub params: StrMap<String>,
}

impl RouteMatch {
    /// The parameters by name.
    pub open spec fn param_map(&self) -> Map<Seq<char>, Seq<char>> {
        self.params.to_map().map_values(|v: String| v@)
    }
}

/// One router per method.
pub struct Router {
    pub routes: StrMap<RadixTree<usize>>,
}

impl Router {
    pub open spec fn wf(&self) -> bool {
        self.routes.wf()
    }

    /// For each method (uppercase), the routes offered for it, in order.
    pub open spec fn table(&self) -> Map<Seq<char>, Seq<(Seq<char>, usize)>> {
        self.routes.to_map().map_values(|r: RadixTree<usize>| matchit_routes(r))
    }

    /// The routes offered for a method so far.
    pub open spec fn offered(&self, method: Seq<char>) -> Seq<(Seq<char>, usize)> {
        if self.table().dom().contains(method) {
            self.table()[method]
        } else {
            Seq::empty()
        }
    }

    /// A router with no routes.
    pub fn new() -> (res: Self)
        ensures
            res.wf(),
            res.table() == Map::<Seq<char>, Seq<(Seq<char>, usize)>>::empty(),
    {
        let res = Router { routes: StrMap::new() };
        assert(res.table() =~= Map::<Seq<char>, Seq<(Seq<char>, usize)>>::empty());
        res
    }

    /// Add a route for a method (taken in uppercase); the router says whether it
    /// accepts the path. A path with 26 or more `{` is refused before the
    /// router sees it, and the table is left as it is.
    pub fn add_route(&mut self, method: &str, path: &str, handler_id: usize) -> (res: Result<(), String>)
        requires
            old(self).wf(),
        ensures
            final(self).wf(),
            too_many_params(path@) ==> (final(self).table() == old(self).table()
                && (res matches Err(m) && m@ == "Failed to add route: Too many route parameters."@)),
            !too_many_params(path@) ==> final(self).table() == old(self).table().insert(
                unicode_uppercase(method@),
                old(self).offered(unicode_uppercase(method@)).push((path@, handler_id)),
            ),
            !too_many_params(path@) ==> match matchit_insert_error(old(self).offered(unicode_uppercase(method@)), path@) {
                None => res is Ok,
                Some(e) => res matches Err(m) && m@ == "Failed to add route: "@ + e,
            },
    {
        if count_open_braces(path) >= 26 {
            return Err(String::from_str("Failed to add route: Too many route parameters."));
        }
        let m = to_uppercase(method);
        let ghost before = self.routes.seq();
        proof {
            self.routes.lemma_len();
        }
        let r = match self.routes.index_of(m.as_str()) {
            Some(i) => {
                proof {
                    crate::strmap::lemma_map_of_at(before, i as int);
                }
                let (key, mut tree) = self.routes.entries.remove(i);
                let r = matchit_insert(&mut tree, path, handler_id);
                let ghost t = tree;
                self.routes.entries.insert(i, (key, tree));
                assert(self.routes.seq() =~= before.update(i as int, (key, t)));
                proof {
                    assert(crate::strmap::unique_keys(self.routes.seq())) by {
                        let s1 = self.routes.seq();
                        assert forall|a: int, b: int| 0 <= a < b < s1.len() implies s1[a].0@ != s1[b].0@ by {
                            if a == i as int {
                                assert(before[b].0@ != before[a].0@);
                            } else if b == i as int {
                                assert(before[a].0@ != before[b].0@);
                            }
                        }
                    }
                    crate::strmap::lemma_map_of_update(before, i as int, key, t);
                    assert(self.table() =~= old(self).table().insert(m@, old(self).offered(m@).push((path@, handler_id))));
                }
                r
            },
            None => {
                assert(!old(self).table().dom().contains(m@));
                let mut tree = matchit_new();
                let r = matchit_insert(&mut tree, path, handler_id);
                let ghost t = tree;
                self.routes.insert(m, tree);
                assert(old(self).offered(m@) =~= Seq::<(Seq<char>, usize)>::empty());
                assert(self.table() =~= old(self).table().insert(m@, old(self).offered(m@).push((path@, handler_id))));
                r
            },
        };
        match r {
            Ok(()) => Ok(()),
            Err(e) => {
                let mut msg = String::from_str("Failed to add route: ");
                msg.append(e.as_str());
                Err(msg)
            },
        }
    }

    /// The handler and parameters of the route that matches a request, looked up
    /// among the routes of its method (taken in uppercase).
    pub fn match_route(&self, method: &str, path: &str) -> (res: Option<RouteMatch>)
        requires
            self.wf(),
        ensures
            if self.table().dom().contains(unicode_uppercase(method@)) {
                match matchit_lookup(self.table()[unicode_uppercase(method@)], path@) {
                    Some((v, ps)) => res matches Some(rm) && rm.params.wf() && rm.handler_id == v
                        && rm.param_map() == pairs_map(ps),
                    None => res is None,
                }
            } else {
                res is None
            },
    {
        let m = to_uppercase(method);
        match self.routes.get(m.as_str()) {
            None => None,
            Some(tree) => match matchit_at(tree, path) {
                None => None,
                Some((v, ps)) => {
                    let mut params: StrMap<String> = StrMap::new();
                    let mut i: usize = 0;
                    assert(params.to_map().map_values(|v: String| v@) =~= pairs_map(pair_views(ps@).subrange(0, 0)));
                    while i < ps.len()
                        invariant
                            i <= ps@.len(),
                            params.wf(),
                            params.to_map().map_values(|v: String| v@) == pairs_map(pair_views(ps@).subrange(0, i as int)),
                        decreases ps.len() - i,
                    {
                        let ghost before = params.to_map();
                        params.insert(ps[i].0.clone(), ps[i].1.clone());
                        assert(pair_views(ps@).subrange(0, i as int + 1).drop_last() =~= pair_views(ps@).subrange(0, i as int));
                        assert(params.to_map().map_values(|v: String| v@) =~= pairs_map(pair_views(ps@).subrange(0, i as int + 1)));
                        i = i + 1;
                    }
                    assert(pair_views(ps@).subrange(0, ps@.len() as int) =~= pair_views(ps@));
                    Some(RouteMatch { handler_id: v, params })
                },
            },
        }
    }
}

impl Default for Router {
    fn default() -> (res: Self)
        ensures
            res.wf(),
            res.table() == Map::<Seq<char>, Seq<(Seq<char>, usize)>>::empty(),
    {
        Router::new()
    }
}

} // verus!
