use vstd::prelude::*;
use vstd::hash_map::StringHashMap;
use crate::conf::{Route, RouteView};
use crate::text::string_views;

verus! {

/// The routes of a configuration as a map from path to route; when several
/// routes share a path, the last of them is the one kept.
pub open spec fn routes_by_path(rs: Seq<RouteView>) -> Map<Seq<char>, RouteView>
    decreases rs.len(),
{
    if rs.len() == 0 {
        Map::empty()
    } else {
        routes_by_path(rs.drop_last()).insert(rs.last().path, rs.last())
    }
}

/// The paths of the routes, each once, in the order of their first
/// appearance.
pub open spec fn distinct_paths(rs: Seq<RouteView>) -> Seq<Seq<char>>
    decreases rs.len(),
{
    if rs.len() == 0 {
        Seq::empty()
    } else {
        let p = distinct_paths(rs.drop_last());
        if p.contains(rs.last().path) {
            p
        } else {
            p.push(rs.last().path)
        }
    }
}

/// The views of a sequence of routes.
pub open spec fn route_views(v: Seq<Route>) -> Seq<RouteView> {
    v.map_values(|r: Route| r@)
}

/// The routes that the service serves, found by path.
pub struct RouteMap {
    routes: StringHashMap<Route>,
    paths: Vec<String>,
}

impl View for RouteMap {
    type V = Map<Seq<char>, RouteView>;

    closed spec fn view(&self) -> Map<Seq<char>, RouteView> {
        self.routes@.map_values(|r: Route| r@)
    }
}

impl RouteMap {
    /// Each served path once, in the order in which it was first configured.
    pub closed spec fn path_order(&self) -> Seq<Seq<char>> {
        string_views(self.paths@)
    }

    #[verifier::type_invariant]
    spec fn well_formed(&self) -> bool {
        &&& self.path_order().no_duplicates()
        &&& forall|p: Seq<char>| #[trigger]
            self.routes@.contains_key(p) <==> self.path_order().contains(p)
    }

    /// Builds the map from the configured routes: each route is found under
    /// its path, the last route of a path replacing earlier ones.
    pub fn from_conf(route: &Vec<Route>) -> (r: RouteMap)
        ensures
            r@ == routes_by_path(route_views(route@)),
            r.path_order() == distinct_paths(route_views(route@)),
    {
        let mut routes: StringHashMap<Route> = StringHashMap::new();
        let mut paths: Vec<String> = Vec::new();
        let mut i: usize = 0;
        while i < route.len()
            invariant
                i <= route@.len(),
                routes@.map_values(|r: Route| r@) == routes_by_path(route_views(route@).take(i as int)),
                string_views(paths@) == distinct_paths(route_views(route@).take(i as int)),
                string_views(paths@).no_duplicates(),
                forall|p: Seq<char>| #[trigger]
                    routes@.contains_key(p) <==> string_views(paths@).contains(p),
            decreases route@.len() - i,
        {
            let ghost rv = route_views(route@);
            proof {
                assert(rv.take(i as int + 1).drop_last() =~= rv.take(i as int));
                assert(rv.take(i as int + 1).last() == route@[i as int]@);
            }
            let r = &route[i];
            let known = routes.contains_key(r.path.as_str());
            let ghost old_map = routes@;
            routes.insert(r.path.clone(), r.deep_clone());
            assert(routes@.map_values(|x: Route| x@) =~= old_map.map_values(|x: Route| x@).insert(
                r.path@,
                r@,
            ));
            let ghost before = string_views(paths@);
            if !known {
                paths.push(r.path.clone());
                assert(string_views(paths@) =~= before.push(r.path@));
            }
            proof {
                let after = string_views(paths@);
                assert forall|p: Seq<char>| #[trigger]
                    routes@.contains_key(p) <==> after.contains(p) by {
                    if !known {
                        if p == r.path@ {
                            assert(after[before.len() as int] == p);
                        } else if after.contains(p) {
                            let k = choose|k: int| 0 <= k < after.len() && after[k] == p;
                            assert(before[k] == p);
                        } else if before.contains(p) {
                            let k = choose|k: int| 0 <= k < before.len() && before[k] == p;
                            assert(after[k] == p);
                        }
                    }
                }
            }
            i = i + 1;
        }
        assert(route_views(route@).take(route@.len() as int) =~= route_views(route@));
        RouteMap { routes, paths }
    }

    /// The route served at `path`, if any.
    pub fn get(&self, path: &str) -> (r: Option<&Route>)
        ensures
            match r {
                Some(route) => self@.contains_key(path@) && self@[path@] == route@,
                None => !self@.contains_key(path@),
            },
    {
        self.routes.get(path)
    }

    /// The served paths, each once, in the order in which each was first
    /// configured.
    pub fn paths(&self) -> (r: &Vec<String>)
        ensures
            string_views(r@) == self.path_order(),
    {
        &self.paths
    }

    /// The number of served paths.
    pub fn len(&self) -> (r: usize)
        ensures
            r == self@.len(),
    {
        proof {
            use_type_invariant(self);
            lemma_dom_is_path_set(self.routes@, self.path_order());
        }
        self.paths.len()
    }
}

proof fn lemma_dom_is_path_set(m: Map<Seq<char>, Route>, paths: Seq<Seq<char>>)
    requires
        paths.no_duplicates(),
        forall|p: Seq<char>| #[trigger] m.contains_key(p) <==> paths.contains(p),
    ensures
        m.map_values(|r: Route| r@).len() == paths.len(),
{
    assert(m.map_values(|r: Route| r@).dom() =~= paths.to_set());
    paths.unique_seq_to_set();
}

} // verus!

verus! {

/// A path is served exactly when some configured route has it.
pub proof fn lemma_served_paths(rs: Seq<RouteView>, p: Seq<char>)
    ensures
        routes_by_path(rs).contains_key(p) <==> exists|i: int| 0 <= i < rs.len() && #[trigger] rs[i].path == p,
    decreases rs.len(),
{
    if rs.len() > 0 {
        let init = rs.drop_last();
        lemma_served_paths(init, p);
        if routes_by_path(rs).contains_key(p) {
            if p != rs.last().path {
                let i = choose|i: int| 0 <= i < init.len() && #[trigger] init[i].path == p;
                assert(rs[i].path == p);
            } else {
                assert(rs[rs.len() - 1].path == p);
            }
        }
        if exists|i: int| 0 <= i < rs.len() && #[trigger] rs[i].path == p {
            let i = choose|i: int| 0 <= i < rs.len() && #[trigger] rs[i].path == p;
            if i < rs.len() - 1 {
                assert(init[i].path == p);
            }
        }
    }
}

/// A path is served by the last configured route that has it.
pub proof fn lemma_last_route_wins(rs: Seq<RouteView>, i: int)
    requires
        0 <= i < rs.len(),
        forall|j: int| i < j < rs.len() ==> #[trigger] rs[j].path != rs[i].path,
    ensures
        routes_by_path(rs).contains_key(rs[i].path),
        routes_by_path(rs)[rs[i].path] == rs[i],
    decreases rs.len(),
{
    if i < rs.len() - 1 {
        let init = rs.drop_last();
        assert forall|j: int| i < j < init.len() implies #[trigger] init[j].path != init[i].path by {
            assert(rs[j].path != rs[i].path);
        }
        lemma_last_route_wins(init, i);
        assert(rs[rs.len() - 1].path != rs[i].path);
    }
}

/// The listed paths are those served, each listed once.
pub proof fn lemma_distinct_paths(rs: Seq<RouteView>)
    ensures
        distinct_paths(rs).no_duplicates(),
        forall|p: Seq<char>| #[trigger] distinct_paths(rs).contains(p) <==> routes_by_path(rs).contains_key(p),
    decreases rs.len(),
{
    if rs.len() > 0 {
        let init = rs.drop_last();
        lemma_distinct_paths(init);
        let d = distinct_paths(init);
        let x = rs.last().path;
        if !d.contains(x) {
            assert forall|p: Seq<char>| #[trigger] d.push(x).contains(p) <==> (d.contains(p) || p == x) by {
                if d.push(x).contains(p) && p != x {
                    let k = choose|k: int| 0 <= k < d.push(x).len() && d.push(x)[k] == p;
                    assert(d[k] == p);
                }
                if d.contains(p) {
                    let k = choose|k: int| 0 <= k < d.len() && d[k] == p;
                    assert(d.push(x)[k] == p);
                }
                if p == x {
                    assert(d.push(x)[d.len() as int] == p);
                }
            }
        }
    }
}

} // verus!
