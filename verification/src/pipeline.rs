//! The pipeline composer and the selective logging filter: route patterns
//! and their matching, the two route groups and their ordered middleware
//! stages, the startup-time merge that refuses overlapping routes, the
//! authorization gate that runs before any handler, and the marking that
//! lets the tracing layer skip detailed logs for designated routes.

use vstd::prelude::*;
use crate::claims::Claims;
use crate::policy::{
    audience_ok, enforce, roles_ok, route_policy, AccessDecision, AccessPolicy,
};
use crate::text::{contains_string, contains_text};

verus! {

/// Splits a path on `/`, accumulating the current segment; the spelling of
/// the standard split: a leading or trailing separator yields an empty
/// segment.
pub open spec fn split_acc(s: Seq<char>, cur: Seq<char>) -> Seq<Seq<char>>
    decreases s.len(),
{
    if s.len() == 0 {
        seq![cur]
    } else if s[0] == '/' {
        seq![cur] + split_acc(s.drop_first(), Seq::empty())
    } else {
        split_acc(s.drop_first(), cur.push(s[0]))
    }
}

/// The segments of a path text.
pub open spec fn segments(s: Seq<char>) -> Seq<Seq<char>> {
    split_acc(s, Seq::empty())
}

/// The views of a list of segment texts.
pub open spec fn seg_views(v: Seq<String>) -> Seq<Seq<char>> {
    v.map_values(|t: String| t@)
}

/// Splits a path text into its segments.
pub fn split_path(s: &str) -> (r: Vec<String>)
    ensures
        seg_views(r@) == segments(s@),
{
    let n = s.unicode_len();
    let mut parts: Vec<String> = Vec::new();
    let mut start: usize = 0;
    let mut i: usize = 0;
    proof {
        assert(s@.skip(0) =~= s@);
        assert(s@.subrange(0, 0) =~= Seq::<char>::empty());
        assert(seg_views(parts@) =~= Seq::<Seq<char>>::empty());
        assert(seg_views(parts@) + split_acc(s@, Seq::<char>::empty()) =~= split_acc(
            s@,
            Seq::<char>::empty(),
        ));
    }
    while i < n
        invariant
            n == s@.len(),
            start <= i <= n,
            segments(s@) =~= seg_views(parts@) + split_acc(
                s@.skip(i as int),
                s@.subrange(start as int, i as int),
            ),
        decreases n - i,
    {
        let ghost pre = seg_views(parts@);
        let ghost cur = s@.subrange(start as int, i as int);
        let c = s.get_char(i);
        if c == '/' {
            let seg = s.substring_char(start, i);
            parts.push(seg.to_owned());
            proof {
                assert(s@.skip(i as int).len() > 0);
                assert(s@.skip(i as int)[0] == s@[i as int]);
                assert(s@.skip(i as int).drop_first() =~= s@.skip(i as int + 1));
                assert(split_acc(s@.skip(i as int), cur) == seq![cur] + split_acc(
                    s@.skip(i as int + 1),
                    Seq::empty(),
                ));
                assert(seg_views(parts@) =~= pre.push(cur));
                assert(s@.subrange(i as int + 1, i as int + 1) =~= Seq::<char>::empty());
                assert(pre + (seq![cur] + split_acc(s@.skip(i as int + 1), Seq::<char>::empty()))
                    =~= pre.push(cur) + split_acc(s@.skip(i as int + 1), Seq::<char>::empty()));
            }
            start = i + 1;
        } else {
            proof {
                assert(s@.skip(i as int).len() > 0);
                assert(s@.skip(i as int)[0] == s@[i as int]);
                assert(s@.skip(i as int).drop_first() =~= s@.skip(i as int + 1));
                assert(cur.push(s@[i as int]) =~= s@.subrange(start as int, i as int + 1));
                assert(split_acc(s@.skip(i as int), cur) == split_acc(
                    s@.skip(i as int + 1),
                    cur.push(s@[i as int]),
                ));
            }
        }
        i = i + 1;
    }
    let ghost pre = seg_views(parts@);
    let seg = s.substring_char(start, n);
    parts.push(seg.to_owned());
    proof {
        assert(s@.skip(n as int) =~= Seq::<char>::empty());
        assert(split_acc(Seq::<char>::empty(), s@.subrange(start as int, n as int)) == seq![
            s@.subrange(start as int, n as int),
        ]);
        assert(seg_views(parts@) =~= pre.push(s@.subrange(start as int, n as int)));
        assert(seg_views(parts@) =~= segments(s@));
    }
    parts
}

/// A pattern segment that opens with `{` is a parameter and accepts any
/// non-empty segment; every other pattern segment accepts only itself.
pub open spec fn segment_matches(pat: Seq<char>, seg: Seq<char>) -> bool {
    if pat.len() > 0 && pat[0] == '{' {
        seg.len() > 0
    } else {
        pat == seg
    }
}

/// A path belongs to a route pattern when they have the same number of
/// segments and each pattern segment accepts the path's.
pub open spec fn path_matches(pattern: Seq<char>, path: Seq<char>) -> bool {
    segments(pattern).len() == segments(path).len() && (forall|k: int|
        0 <= k < segments(pattern).len() ==> segment_matches(
            #[trigger] segments(pattern)[k],
            segments(path)[k],
        ))
}

fn segment_match(pat: &String, seg: &String) -> (r: bool)
    ensures
        r == segment_matches(pat@, seg@),
{
    let p = pat.as_str();
    if p.unicode_len() > 0 && p.get_char(0) == '{' {
        seg.as_str().unicode_len() > 0
    } else {
        *pat == *seg
    }
}

/// Decides whether a path belongs to a route pattern.
pub fn match_route(pattern: &str, path: &str) -> (r: bool)
    ensures
        r == path_matches(pattern@, path@),
{
    let ps = split_path(pattern);
    let ss = split_path(path);
    if ps.len() != ss.len() {
        return false;
    }
    let mut k: usize = 0;
    while k < ps.len()
        invariant
            seg_views(ps@) == segments(pattern@),
            seg_views(ss@) == segments(path@),
            ps@.len() == ss@.len(),
            k <= ps@.len(),
            forall|j: int| 0 <= j < k ==> segment_matches(
                #[trigger] segments(pattern@)[j],
                segments(path@)[j],
            ),
        decreases ps@.len() - k,
    {
        if !segment_match(&ps[k], &ss[k]) {
            assert(!segment_matches(segments(pattern@)[k as int], segments(path@)[k as int]));
            return false;
        }
        k = k + 1;
    }
    true
}

/// Every path belongs to its own pattern: identical segments match, and a
/// parameter segment, which is non-empty, accepts itself.
pub proof fn lemma_path_matches_self(t: Seq<char>)
    ensures
        path_matches(t, t),
{
}

/// The methods this service routes.
#[derive(PartialEq, Eq, Structural, Clone, Copy, Debug)]
pub enum Method {
    Get,
    Post,
    Put,
    Delete,
}

/// The named cross-cutting stages a request traverses, in the order the
/// group lists them.
#[derive(PartialEq, Eq, Structural, Clone, Copy, Debug)]
pub enum Stage {
    /// Span creation: even a denied request is observable.
    Tracing,
    /// Latency and throughput capture.
    Metrics,
    /// The blocking access-policy enforcement.
    Authorization,
    /// The route handler itself, always last.
    Handler,
}

/// One routable pattern and its method.
pub struct Route {
    pub path: String,
    pub method: Method,
}

/// Ghost image of a route.
pub ghost struct RouteV {
    pub path: Seq<char>,
    pub method: Method,
}

impl View for Route {
    type V = RouteV;

    open spec fn view(&self) -> RouteV {
        RouteV { path: self.path@, method: self.method }
    }
}

/// The views of a route list.
pub open spec fn routes_view(s: Seq<Route>) -> Seq<RouteV> {
    s.map_values(|r: Route| r@)
}

/// A group of routes under one ordered stage list, one optional access
/// policy, and one log-suppression mark.
pub struct RouteGroup {
    pub routes: Vec<Route>,
    pub stages: Vec<Stage>,
    pub policy: Option<AccessPolicy>,
    pub suppress_logs: bool,
}

/// The stage list a group may run: span creation first, the handler last
/// and nowhere else; in consequence an authorization stage, wherever it
/// stands, runs after span creation and before the handler.
pub open spec fn stages_ordered(s: Seq<Stage>) -> bool {
    &&& s.len() >= 2
    &&& s[0] == Stage::Tracing
    &&& s[s.len() - 1] == Stage::Handler
    &&& forall|i: int| 0 <= i < s.len() - 1 ==> s[i] != Stage::Handler
}

/// The stage occurs in the list.
pub open spec fn has_stage(s: Seq<Stage>, st: Stage) -> bool {
    exists|i: int| 0 <= i < s.len() && s[i] == st
}

/// A group is well-formed when its stages are ordered and it carries an
/// authorization stage exactly when it carries a policy.
pub open spec fn group_wf(g: RouteGroup) -> bool {
    &&& stages_ordered(g.stages@)
    &&& has_stage(g.stages@, Stage::Authorization) <==> g.policy is Some
}

/// The stages of the groups that sit under the metrics layer.
pub open spec fn standard_stages() -> Seq<Stage> {
    seq![Stage::Tracing, Stage::Metrics, Stage::Handler]
}

/// The stages of the protected group.
pub open spec fn protected_stages() -> Seq<Stage> {
    seq![Stage::Tracing, Stage::Metrics, Stage::Authorization, Stage::Handler]
}

/// The stages of the group outside the metrics layer.
pub open spec fn plain_stages() -> Seq<Stage> {
    seq![Stage::Tracing, Stage::Handler]
}

proof fn lemma_standard_stages_ordered()
    ensures
        stages_ordered(standard_stages()),
        !has_stage(standard_stages(), Stage::Authorization),
{
    let s = standard_stages();
    assert forall|i: int| 0 <= i < s.len() - 1 implies s[i] != Stage::Handler by {
        if i == 0 {
        } else {
            assert(i == 1);
        }
    }
    assert forall|i: int| 0 <= i < s.len() implies s[i] != Stage::Authorization by {
        if i == 0 {
        } else if i == 1 {
        } else {
            assert(i == 2);
        }
    }
}

proof fn lemma_plain_stages_ordered()
    ensures
        stages_ordered(plain_stages()),
        !has_stage(plain_stages(), Stage::Authorization),
{
    let s = plain_stages();
    assert forall|i: int| 0 <= i < s.len() - 1 implies s[i] != Stage::Handler by {
        assert(i == 0);
    }
    assert forall|i: int| 0 <= i < s.len() implies s[i] != Stage::Authorization by {
        if i == 0 {
        } else {
            assert(i == 1);
        }
    }
}

fn standard_stage_vec() -> (r: Vec<Stage>)
    ensures
        r@ == standard_stages(),
{
    let mut v: Vec<Stage> = Vec::new();
    v.push(Stage::Tracing);
    v.push(Stage::Metrics);
    v.push(Stage::Handler);
    proof {
        assert(v@ =~= standard_stages());
    }
    v
}

fn route_entry(path: &str, method: Method) -> (r: Route)
    ensures
        r.path@ == path@,
        r.method == method,
{
    Route { path: path.to_owned(), method }
}

/// The public group: liveness and login, open to everyone, under tracing
/// and metrics, with no policy.
pub fn public_router() -> (r: RouteGroup)
    ensures
        r.routes@.len() == 2,
        r.routes@[0].path@ == "/"@ && r.routes@[0].method == Method::Get,
        r.routes@[1].path@ == "/login"@ && r.routes@[1].method == Method::Post,
        r.stages@ == standard_stages(),
        r.policy is None,
        r.suppress_logs == false,
        group_wf(r),
{
    let mut routes: Vec<Route> = Vec::new();
    routes.push(route_entry("/", Method::Get));
    routes.push(route_entry("/login", Method::Post));
    proof {
        lemma_standard_stages_ordered();
    }
    RouteGroup { routes, stages: standard_stage_vec(), policy: None, suppress_logs: false }
}

/// The metrics group: the scrape endpoint, open, and marked for log
/// suppression so scrapes do not flood the logs.
pub fn metrics_router() -> (r: RouteGroup)
    ensures
        r.routes@.len() == 1,
        r.routes@[0].path@ == "/metrics"@ && r.routes@[0].method == Method::Get,
        r.stages@ == standard_stages(),
        r.policy is None,
        r.suppress_logs == true,
        group_wf(r),
{
    let mut routes: Vec<Route> = Vec::new();
    routes.push(route_entry("/metrics", Method::Get));
    proof {
        lemma_standard_stages_ordered();
    }
    RouteGroup { routes, stages: standard_stage_vec(), policy: None, suppress_logs: true }
}

/// The machine-readable API description, outside the metrics layer.
pub fn open_api_router() -> (r: RouteGroup)
    ensures
        r.routes@.len() == 1,
        r.routes@[0].path@ == "/api.json"@ && r.routes@[0].method == Method::Get,
        r.stages@ == plain_stages(),
        r.policy is None,
        r.suppress_logs == false,
        group_wf(r),
{
    let mut routes: Vec<Route> = Vec::new();
    routes.push(route_entry("/api.json", Method::Get));
    let mut stages: Vec<Stage> = Vec::new();
    stages.push(Stage::Tracing);
    stages.push(Stage::Handler);
    proof {
        assert(stages@ =~= plain_stages());
        lemma_plain_stages_ordered();
    }
    RouteGroup { routes, stages, policy: None, suppress_logs: false }
}

/// Attaches the blocking authorization stage to a group: the stage is
/// inserted directly before the handler — so it runs after span creation —
/// and the policy is attached. Requests failing the policy never reach the
/// handler and their body is not read.
pub fn protect(g: RouteGroup, policy: AccessPolicy) -> (r: RouteGroup)
    requires
        group_wf(g),
        g.policy is None,
    ensures
        r.routes@ == g.routes@,
        r.stages@ == g.stages@.insert(g.stages@.len() - 1, Stage::Authorization),
        r.policy == Some(policy),
        r.suppress_logs == g.suppress_logs,
        group_wf(r),
{
    let RouteGroup { routes, mut stages, policy: _unused, suppress_logs } = g;
    let idx = stages.len() - 1;
    let ghost before = stages@;
    stages.insert(idx, Stage::Authorization);
    proof {
        before.insert_ensures(idx as int, Stage::Authorization);
        assert(stages@[0] == before[0]);
        assert(stages@[stages@.len() - 1] == before[idx as int]);
        assert forall|i: int| 0 <= i < stages@.len() - 1 implies stages@[i] != Stage::Handler by {
            if i < idx {
                assert(stages@[i] == before[i]);
            } else {
                assert(i == idx);
            }
        }
        assert(stages@[idx as int] == Stage::Authorization);
        assert(has_stage(stages@, Stage::Authorization));
    }
    RouteGroup { routes, stages, policy: Some(policy), suppress_logs }
}

/// The protected group: the four user-resource routes, under tracing and
/// metrics, gated by the fixed route policy.
pub fn private_router() -> (r: RouteGroup)
    ensures
        r.routes@.len() == 4,
        r.routes@[0].path@ == "/users/{id}"@ && r.routes@[0].method == Method::Get,
        r.routes@[1].path@ == "/users/{id}"@ && r.routes@[1].method == Method::Delete,
        r.routes@[2].path@ == "/users/{id}"@ && r.routes@[2].method == Method::Put,
        r.routes@[3].path@ == "/users"@ && r.routes@[3].method == Method::Post,
        r.stages@ == protected_stages(),
        (r.policy matches Some(p) && p.required_audiences@.len() == 1
            && p.required_audiences@[0]@ == "account"@ && p.required_roles@.len() == 1
            && p.required_roles@[0]@ == "user"@),
        r.suppress_logs == false,
        group_wf(r),
{
    let mut routes: Vec<Route> = Vec::new();
    routes.push(route_entry("/users/{id}", Method::Get));
    routes.push(route_entry("/users/{id}", Method::Delete));
    routes.push(route_entry("/users/{id}", Method::Put));
    routes.push(route_entry("/users", Method::Post));
    proof {
        lemma_standard_stages_ordered();
    }
    let unprotected = RouteGroup {
        routes,
        stages: standard_stage_vec(),
        policy: None,
        suppress_logs: false,
    };
    let protected_group = protect(unprotected, route_policy());
    proof {
        assert(protected_group.stages@ =~= protected_stages());
    }
    protected_group
}

/// All routes of a group list, in order.
pub open spec fn flat_routes(groups: Seq<RouteGroup>) -> Seq<RouteV>
    decreases groups.len(),
{
    if groups.len() == 0 {
        Seq::empty()
    } else {
        routes_view(groups[0].routes@) + flat_routes(groups.drop_first())
    }
}

proof fn lemma_flat_routes_snoc(groups: Seq<RouteGroup>, g: RouteGroup)
    ensures
        flat_routes(groups.push(g)) =~= flat_routes(groups) + routes_view(g.routes@),
    decreases groups.len(),
{
    if groups.len() == 0 {
        assert(groups.push(g)[0] == g);
        assert(groups.push(g).drop_first() =~= Seq::<RouteGroup>::empty());
        assert(flat_routes(Seq::<RouteGroup>::empty()) =~= Seq::<RouteV>::empty());
        assert(flat_routes(groups.push(g)) =~= routes_view(g.routes@));
        assert(flat_routes(groups) =~= Seq::<RouteV>::empty());
    } else {
        assert(groups.push(g)[0] == groups[0]);
        assert(groups.push(g).drop_first() =~= groups.drop_first().push(g));
        lemma_flat_routes_snoc(groups.drop_first(), g);
        assert(flat_routes(groups.push(g)) == routes_view(groups[0].routes@) + flat_routes(
            groups.drop_first().push(g),
        ));
        assert(flat_routes(groups) == routes_view(groups[0].routes@) + flat_routes(
            groups.drop_first(),
        ));
    }
}

/// No two routes anywhere in the list share a pattern and a method.
pub open spec fn no_conflicts(s: Seq<RouteV>) -> bool {
    forall|i: int, j: int|
        0 <= i < j < s.len() ==> !(s[i].path == s[j].path && s[i].method == s[j].method)
}

/// Every group in the list is well-formed.
pub open spec fn groups_wf(groups: Seq<RouteGroup>) -> bool {
    forall|i: int| 0 <= i < groups.len() ==> group_wf(#[trigger] groups[i])
}

/// The composed application: the groups in merge order.
pub struct App {
    pub groups: Vec<RouteGroup>,
}

/// A composed application is well-formed when its groups are and no two
/// routes collide.
pub open spec fn app_wf(app: App) -> bool {
    groups_wf(app.groups@) && no_conflicts(flat_routes(app.groups@))
}

/// The one configuration error the merge can raise.
#[derive(PartialEq, Eq, Structural, Clone, Copy, Debug)]
pub enum ConfigError {
    /// Two merged routes share a pattern and a method.
    OverlappingRoutes,
}

fn flatten_routes(groups: &Vec<RouteGroup>) -> (r: Vec<Route>)
    ensures
        routes_view(r@) =~= flat_routes(groups@),
{
    let mut flat: Vec<Route> = Vec::new();
    let n = groups.len();
    let mut gi: usize = 0;
    proof {
        assert(groups@.take(0) =~= Seq::<RouteGroup>::empty());
        assert(routes_view(flat@) =~= flat_routes(groups@.take(0)));
    }
    while gi < n
        invariant
            n == groups@.len(),
            gi <= n,
            routes_view(flat@) =~= flat_routes(groups@.take(gi as int)),
        decreases n - gi,
    {
        let g = &groups[gi];
        let m = g.routes.len();
        let mut ri: usize = 0;
        while ri < m
            invariant
                n == groups@.len(),
                gi < n,
                m == groups@[gi as int].routes@.len(),
                ri <= m,
                routes_view(flat@) =~= flat_routes(groups@.take(gi as int)) + routes_view(
                    groups@[gi as int].routes@.take(ri as int),
                ),
            decreases m - ri,
        {
            let ghost fl = flat@;
            let route = &groups[gi].routes[ri];
            flat.push(Route { path: route.path.clone(), method: route.method });
            proof {
                assert(flat@[fl.len() as int]@ == groups@[gi as int].routes@[ri as int]@);
                assert(routes_view(flat@) =~= routes_view(fl).push(
                    groups@[gi as int].routes@[ri as int]@,
                ));
                assert(groups@[gi as int].routes@.take(ri as int + 1) =~= groups@[
                    gi as int
                ].routes@.take(ri as int).push(groups@[gi as int].routes@[ri as int]));
                assert(routes_view(groups@[gi as int].routes@.take(ri as int + 1)) =~= routes_view(
                    groups@[gi as int].routes@.take(ri as int),
                ).push(groups@[gi as int].routes@[ri as int]@));
                assert(routes_view(flat@) =~= flat_routes(groups@.take(gi as int)) + routes_view(
                    groups@[gi as int].routes@.take(ri as int + 1),
                ));
            }
            ri = ri + 1;
        }
        proof {
            assert(groups@[gi as int].routes@.take(m as int) =~= groups@[gi as int].routes@);
            assert(groups@.take(gi as int + 1) =~= groups@.take(gi as int).push(
                groups@[gi as int],
            ));
            lemma_flat_routes_snoc(groups@.take(gi as int), groups@[gi as int]);
        }
        gi = gi + 1;
    }
    proof {
        assert(groups@.take(n as int) =~= groups@);
    }
    flat
}

/// Merges route groups into one application. A collision — two routes
/// with the same pattern and method — is a configuration error raised
/// here, at startup, never at request time.
pub fn compose(groups: Vec<RouteGroup>) -> (r: Result<App, ConfigError>)
    requires
        groups_wf(groups@),
    ensures
        (r is Err) <==> !no_conflicts(flat_routes(groups@)),
        r matches Ok(app) ==> app.groups@ == groups@ && app_wf(app),
{
    let flat = flatten_routes(&groups);
    let n = flat.len();
    let mut i: usize = 0;
    while i < n
        invariant
            n == flat@.len(),
            i <= n,
            routes_view(flat@) =~= flat_routes(groups@),
            forall|a: int, b: int|
                0 <= a < i && a < b < n ==> !(routes_view(flat@)[a].path == routes_view(
                    flat@,
                )[b].path && routes_view(flat@)[a].method == routes_view(flat@)[b].method),
        decreases n - i,
    {
        let mut j: usize = i + 1;
        while j < n
            invariant
                n == flat@.len(),
                i < j <= n,
                routes_view(flat@) =~= flat_routes(groups@),
                forall|b: int|
                    i < b < j ==> !(routes_view(flat@)[i as int].path == routes_view(
                        flat@,
                    )[b].path && routes_view(flat@)[i as int].method == routes_view(
                        flat@,
                    )[b].method),
            decreases n - j,
        {
            if flat[i].path == flat[j].path && flat[i].method == flat[j].method {
                proof {
                    let rv = routes_view(flat@);
                    assert(rv[i as int] == flat@[i as int]@);
                    assert(rv[j as int] == flat@[j as int]@);
                    assert(rv[i as int].path == rv[j as int].path && rv[i as int].method == rv[
                        j as int
                    ].method);
                    assert(!no_conflicts(rv));
                    assert(flat_routes(groups@) == rv);
                }
                return Err(ConfigError::OverlappingRoutes);
            }
            j = j + 1;
        }
        i = i + 1;
    }
    Ok(App { groups })
}

/// The group routes this request: some route of it has the method and its
/// pattern accepts the path.
pub open spec fn group_handles(g: RouteGroup, method: Method, path: Seq<char>) -> bool {
    exists|i: int|
        0 <= i < g.routes@.len() && g.routes@[i].method == method && path_matches(
            g.routes@[i].path@,
            path,
        )
}

/// The first group, in merge order, that routes this request.
pub open spec fn handling_group(groups: Seq<RouteGroup>, method: Method, path: Seq<char>) -> Option<
    int,
>
    decreases groups.len(),
{
    if groups.len() == 0 {
        None
    } else if group_handles(groups[0], method, path) {
        Some(0int)
    } else {
        match handling_group(groups.drop_first(), method, path) {
            None => None,
            Some(i) => Some(i + 1),
        }
    }
}

proof fn lemma_handling_prefix(groups: Seq<RouteGroup>, method: Method, path: Seq<char>, k: int)
    requires
        0 <= k <= groups.len(),
        forall|j: int| 0 <= j < k ==> !group_handles(#[trigger] groups[j], method, path),
    ensures
        handling_group(groups, method, path) == (match handling_group(
            groups.skip(k),
            method,
            path,
        ) {
            None => None::<int>,
            Some(i) => Some(i + k),
        }),
    decreases k,
{
    if k == 0 {
        assert(groups.skip(0) =~= groups);
    } else {
        assert(!group_handles(groups[0], method, path));
        assert forall|j: int| 0 <= j < k - 1 implies !group_handles(
            #[trigger] groups.drop_first()[j],
            method,
            path,
        ) by {
            assert(groups.drop_first()[j] == groups[j + 1]);
        }
        lemma_handling_prefix(groups.drop_first(), method, path, k - 1);
        assert(groups.drop_first().skip(k - 1) =~= groups.skip(k));
    }
}

fn group_handles_exec(g: &RouteGroup, method: Method, path: &str) -> (r: bool)
    ensures
        r == group_handles(*g, method, path@),
{
    let n = g.routes.len();
    let mut i: usize = 0;
    while i < n
        invariant
            n == g.routes@.len(),
            i <= n,
            forall|j: int|
                0 <= j < i ==> !(g.routes@[j].method == method && path_matches(
                    #[trigger] g.routes@[j].path@,
                    path@,
                )),
        decreases n - i,
    {
        let route = &g.routes[i];
        if route.method == method && match_route(route.path.as_str(), path) {
            return true;
        }
        i = i + 1;
    }
    false
}

/// What the layered gate does with a request before any handler runs.
#[derive(PartialEq, Eq, Structural, Clone, Copy, Debug)]
pub enum GateOutcome {
    /// No merged route takes the request.
    NoRoute,
    /// The group demands a policy and the request carries no valid token.
    Unauthenticated,
    /// The token fails the group's policy: the request is blocked, its
    /// body unread, the handler never invoked.
    Denied(AccessDecision),
    /// The request reaches the handler.
    Reached,
}

/// The authorization stage's answer for one group's policy and one request's claims.
pub open spec fn gate_spec(policy: Option<AccessPolicy>, claims: Option<Claims>) -> GateOutcome {
    match policy {
        None => GateOutcome::Reached,
        Some(p) => match claims {
            None => GateOutcome::Unauthenticated,
            Some(c) => if !audience_ok(&c, &p) {
                GateOutcome::Denied(AccessDecision::MissingAudience)
            } else if !roles_ok(&c, &p) {
                GateOutcome::Denied(AccessDecision::MissingRole)
            } else {
                GateOutcome::Reached
            },
        },
    }
}

/// Runs the authorization stage for one group.
pub fn authorize(policy: &Option<AccessPolicy>, claims: &Option<Claims>) -> (r: GateOutcome)
    ensures
        r == gate_spec(*policy, *claims),
{
    match policy {
        None => GateOutcome::Reached,
        Some(p) => match claims {
            None => GateOutcome::Unauthenticated,
            Some(c) => match enforce(c, p) {
                AccessDecision::Allow => GateOutcome::Reached,
                d => GateOutcome::Denied(d),
            },
        },
    }
}

/// Routes one request through the merged groups and runs the matched
/// group's gate: the answer says whether the handler is reached at all.
pub fn dispatch(app: &App, method: Method, path: &str, claims: &Option<Claims>) -> (r: GateOutcome)
    ensures
        (match handling_group(app.groups@, method, path@) {
            None => r == GateOutcome::NoRoute,
            Some(gi) => r == gate_spec(app.groups@[gi].policy, *claims),
        }),
{
    let n = app.groups.len();
    let mut gi: usize = 0;
    while gi < n
        invariant
            n == app.groups@.len(),
            gi <= n,
            forall|j: int| 0 <= j < gi ==> !group_handles(#[trigger] app.groups@[j], method, path@),
        decreases n - gi,
    {
        let g = &app.groups[gi];
        if group_handles_exec(g, method, path) {
            proof {
                lemma_handling_prefix(app.groups@, method, path@, gi as int);
                assert(app.groups@.skip(gi as int)[0] == app.groups@[gi as int]);
                assert(handling_group(app.groups@, method, path@) == Some(gi as int));
            }
            return authorize(&g.policy, claims);
        }
        gi = gi + 1;
    }
    proof {
        lemma_handling_prefix(app.groups@, method, path@, n as int);
        assert(app.groups@.skip(n as int).len() == 0);
    }
    GateOutcome::NoRoute
}

/// A token that lacks one of the policy's required roles is denied at the
/// authorization stage and never handled, whatever else it carries.
pub proof fn lemma_missing_role_never_reaches_handler(policy: AccessPolicy, claims: Claims)
    requires
        !crate::text::subset_text(policy.required_roles@, claims.roles@),
    ensures
        gate_spec(Some(policy), Some(claims)) != GateOutcome::Reached,
        gate_spec(Some(policy), Some(claims)) matches GateOutcome::Denied(_),
{
}

/// The configured suppression list: the metrics scrape route.
pub fn get_included_paths() -> (r: Vec<String>)
    ensures
        r@.len() == 1,
        r@[0]@ == "/metrics"@,
{
    let mut v: Vec<String> = Vec::new();
    v.push(String::from_str("/metrics"));
    v
}

/// The middleware that marks responses from listed paths: on a listed
/// path it attaches the suppression marker, otherwise nothing.
pub fn ignore_logs(path: &String, included: &Vec<String>) -> (marker: Option<String>)
    ensures
        (match marker {
            Some(v) => contains_text(included@, path@) && v@ == "true"@,
            None => !contains_text(included@, path@),
        }),
{
    if contains_string(included, path) {
        Some(String::from_str("true"))
    } else {
        None
    }
}

/// The marker a group's responses carry out of the pipeline.
pub fn mark_response(g: &RouteGroup) -> (marker: Option<String>)
    ensures
        (match marker {
            Some(v) => g.suppress_logs && v@ == "true"@,
            None => !g.suppress_logs,
        }),
{
    if g.suppress_logs {
        Some(String::from_str("true"))
    } else {
        None
    }
}

/// The tracing layer's response hook: it emits the detailed response-log
/// event unless the marker says to skip it; the span itself is recorded
/// either way.
pub fn response_log_decision(marker: &Option<String>) -> (log: bool)
    ensures
        log == !(match marker {
            Some(v) => v@ == "true"@,
            None => false,
        }),
{
    match marker {
        Some(v) => !(*v == String::from_str("true")),
        None => true,
    }
}

/// Marking and hook composed: a response from a suppressed group never
/// yields the detailed response-log event, and one from any other group
/// always does.
pub fn response_event_emitted(g: &RouteGroup) -> (r: bool)
    ensures
        r == !g.suppress_logs,
{
    let marker = mark_response(g);
    response_log_decision(&marker)
}

/// The tracing layer's request hook: requests to listed paths are not
/// logged on arrival either.
pub fn request_log_decision(path: &String, skip_paths: &Vec<String>) -> (log: bool)
    ensures
        log == !contains_text(skip_paths@, path@),
{
    !contains_string(skip_paths, path)
}

} // verus!
