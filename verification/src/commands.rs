//! The decisions of the command layer: which requests a query makes, how
//! their results are put together, and when the background keeper refreshes
//! the session. Sending requests, threads and windows are the application's.
use crate::config::{session_age, session_ready_of, Config, MetricDef};
use crate::container::name_lt;
use crate::json::str_eq;
use crate::text::{chars_of, copy_str, push_str};
use vstd::prelude::*;

verus! {

// ---------------------------------------------------------------------------
// Grouping the selected metrics by view
// ---------------------------------------------------------------------------

/// The APM views the metric API knows.
pub open spec fn known_view(v: Seq<char>) -> bool {
    v == "service_metric"@ || v == "sql_metric"@ || v == "mq_metric"@ || v == "runtime_metric"@
}

/// A group of metric names under one view.
pub type ViewGroup = (Seq<char>, Seq<Seq<char>>);

/// The index of `view` among the groups.
pub open spec fn group_pos(gs: Seq<ViewGroup>, view: Seq<char>) -> Option<int>
    decreases gs.len(),
{
    if gs.len() == 0 {
        None
    } else if gs[0].0 == view {
        Some(0)
    } else {
        match group_pos(gs.drop_first(), view) {
            Some(k) => Some(k + 1),
            None => None,
        }
    }
}

/// Where a new view goes so that the groups stay in name order.
pub open spec fn group_insert_pos(gs: Seq<ViewGroup>, view: Seq<char>) -> nat
    decreases gs.len(),
{
    if gs.len() == 0 {
        0
    } else if name_lt(view, gs[0].0) {
        0
    } else {
        1 + group_insert_pos(gs.drop_first(), view)
    }
}

/// Adds `name` to the group of `view` (a map from view to names, in view order).
pub open spec fn group_add(gs: Seq<ViewGroup>, view: Seq<char>, name: Seq<char>) -> Seq<ViewGroup> {
    match group_pos(gs, view) {
        Some(j) => gs.update(j, (view, gs[j].1.push(name))),
        None => gs.insert(group_insert_pos(gs, view) as int, (view, seq![name])),
    }
}

/// What a query asks: metric names grouped by view, the instance-level
/// metrics, and the metrics skipped for an unknown view.
pub type MetricPlan = (Seq<ViewGroup>, Seq<Seq<char>>, Seq<(Seq<char>, Seq<char>)>);

/// Reads one metric: computed ones are left to the front end, instance-level
/// ones go to their own request; with `known_only`, an unknown view is skipped.
pub open spec fn plan_step(p: MetricPlan, name: Seq<char>, view: Seq<char>, known_only: bool) -> MetricPlan {
    if view == "computed"@ {
        p
    } else if view == "instance_metric"@ {
        (p.0, p.1.push(name), p.2)
    } else if known_only && !known_view(view) {
        (p.0, p.1, p.2.push((name, view)))
    } else {
        (group_add(p.0, view, name), p.1, p.2)
    }
}

/// The plan after reading `ms` in order.
pub open spec fn plan_of(ms: Seq<(Seq<char>, Seq<char>)>, known_only: bool) -> MetricPlan
    decreases ms.len(),
{
    if ms.len() == 0 {
        (Seq::empty(), Seq::empty(), Seq::empty())
    } else {
        let p = plan_of(ms.drop_last(), known_only);
        plan_step(p, ms.last().0, ms.last().1, known_only)
    }
}

/// The metric definitions as `(name, view)` pairs.
pub open spec fn defs_view(ms: Seq<MetricDef>) -> Seq<(Seq<char>, Seq<char>)> {
    ms.map_values(|m: MetricDef| (m.name@, m.view@))
}

/// The views of the groups strictly rise in name order: each view once, in
/// order (as in a map keyed by view).
pub open spec fn views_ascending(gs: Seq<ViewGroup>) -> bool {
    forall|i: int, j: int| 0 <= i < j < gs.len() ==> name_lt(#[trigger] gs[i].0, #[trigger] gs[j].0)
}

proof fn lemma_group_pos(gs: Seq<ViewGroup>, view: Seq<char>)
    ensures
        match group_pos(gs, view) {
            Some(j) => 0 <= j < gs.len() && gs[j].0 == view,
            None => forall|k: int| 0 <= k < gs.len() ==> (#[trigger] gs[k]).0 != view,
        },
    decreases gs.len(),
{
    if gs.len() > 0 && gs[0].0 != view {
        lemma_group_pos(gs.drop_first(), view);
        match group_pos(gs.drop_first(), view) {
            Some(j) => {
                assert(gs[j + 1] == gs.drop_first()[j]);
            },
            None => {
                assert forall|k: int| 0 <= k < gs.len() implies (#[trigger] gs[k]).0 != view by {
                    if k > 0 {
                        assert(gs[k] == gs.drop_first()[k - 1]);
                    }
                }
            },
        }
    }
}

proof fn lemma_group_insert_pos(gs: Seq<ViewGroup>, view: Seq<char>)
    ensures
        group_insert_pos(gs, view) <= gs.len(),
        forall|k: int| 0 <= k < group_insert_pos(gs, view) ==> !name_lt(view, #[trigger] gs[k].0),
        group_insert_pos(gs, view) < gs.len() ==> name_lt(view, gs[group_insert_pos(gs, view) as int].0),
    decreases gs.len(),
{
    if gs.len() > 0 && !name_lt(view, gs[0].0) {
        lemma_group_insert_pos(gs.drop_first(), view);
        assert forall|k: int| 0 <= k < group_insert_pos(gs, view) implies !name_lt(view, #[trigger] gs[k].0) by {
            if k > 0 {
                assert(gs[k] == gs.drop_first()[k - 1]);
            }
        }
        if group_insert_pos(gs, view) < gs.len() {
            assert(gs[group_insert_pos(gs, view) as int] == gs.drop_first()[group_insert_pos(
                gs.drop_first(),
                view,
            ) as int]);
        }
    }
}

proof fn lemma_group_add_ascending(gs: Seq<ViewGroup>, view: Seq<char>, name: Seq<char>)
    requires
        views_ascending(gs),
    ensures
        views_ascending(group_add(gs, view, name)),
{
    lemma_group_pos(gs, view);
    match group_pos(gs, view) {
        Some(j) => {
            let out = group_add(gs, view, name);
            assert forall|i: int, k: int| 0 <= i < k < out.len() implies name_lt(#[trigger] out[i].0, #[trigger] out[k].0) by {
                assert(out[i].0 == gs[i].0 && out[k].0 == gs[k].0);
            }
        },
        None => {
            lemma_group_insert_pos(gs, view);
            let p = group_insert_pos(gs, view) as int;
            let out = gs.insert(p, (view, seq![name]));
            assert(group_add(gs, view, name) == out);
            assert forall|i: int, k: int| 0 <= i < k < out.len() implies name_lt(#[trigger] out[i].0, #[trigger] out[k].0) by {
                if k < p {
                    assert(out[i] == gs[i] && out[k] == gs[k]);
                } else if k == p {
                    assert(out[i] == gs[i]);
                    assert(!name_lt(view, gs[i].0));
                    assert(gs[i].0 != view);
                    if !name_lt(gs[i].0, view) {
                        crate::container::lemma_name_lt_total(gs[i].0, view);
                    }
                } else if i == p {
                    assert(out[k] == gs[k - 1]);
                    if k - 1 > p {
                        crate::container::lemma_name_lt_transitive(view, gs[p].0, gs[k - 1].0);
                    }
                } else if i < p {
                    assert(out[i] == gs[i] && out[k] == gs[k - 1]);
                } else {
                    assert(out[i] == gs[i - 1] && out[k] == gs[k - 1]);
                }
            }
        },
    }
}

/// The plan holds each view once, in name order, whatever order the
/// metrics were selected in.
pub proof fn law_plan_views_ascending(ms: Seq<(Seq<char>, Seq<char>)>, known_only: bool)
    ensures
        views_ascending(plan_of(ms, known_only).0),
    decreases ms.len(),
{
    if ms.len() > 0 {
        law_plan_views_ascending(ms.drop_last(), known_only);
        let p = plan_of(ms.drop_last(), known_only);
        lemma_group_add_ascending(p.0, ms.last().1, ms.last().0);
    }
}

/// A query plan as the application runs it.
pub struct QueryPlan {
    pub by_view: Vec<(String, Vec<String>)>,
    pub instance: Vec<String>,
    pub skipped: Vec<(String, String)>,
}

impl QueryPlan {
    pub open spec fn view(self) -> MetricPlan {
        (
            self.by_view@.map_values(|g: (String, Vec<String>)| (g.0@, g.1@.map_values(|s: String| s@))),
            self.instance@.map_values(|s: String| s@),
            self.skipped@.map_values(|x: (String, String)| (x.0@, x.1@)),
        )
    }
}

fn str_lt(a: &str, b: &str) -> (r: bool)
    ensures
        r == name_lt(a@, b@),
{
    crate::container::name_lt_exec(&chars_of(a), &chars_of(b))
}

fn add_to_group(gs: &mut Vec<(String, Vec<String>)>, view: &str, name: &str)
    ensures
        final(gs)@.map_values(|g: (String, Vec<String>)| (g.0@, g.1@.map_values(|s: String| s@)))
            == group_add(
            old(gs)@.map_values(|g: (String, Vec<String>)| (g.0@, g.1@.map_values(|s: String| s@))),
            view@,
            name@,
        ),
{
    let ghost gv = gs@.map_values(|g: (String, Vec<String>)| (g.0@, g.1@.map_values(|s: String| s@)));
    let mut j: usize = 0;
    assert(gv.skip(0) == gv);
    while j < gs.len()
        invariant
            j <= gs@.len(),
            gs@ == old(gs)@,
            gv == gs@.map_values(|g: (String, Vec<String>)| (g.0@, g.1@.map_values(|s: String| s@))),
            forall|k: int| 0 <= k < j ==> gv[k].0 != view@,
        decreases gs.len() - j,
    {
        if str_eq(gs[j].0.as_str(), view) {
            proof {
                lemma_group_pos_at(gv, view@, j as int);
            }
            let mut names = gs[j].1.clone();
            assert(names@ =~= gs@[j as int].1@);
            let ghost old_names = gv[j as int].1;
            assert(names@.map_values(|s: String| s@) =~= old_names);
            names.push(copy_str(name));
            assert(names@.map_values(|s: String| s@) =~= old_names.push(name@));
            let g = (gs[j].0.clone(), names);
            assert(g.0@ == view@);
            gs.set(j, g);
            assert(gs@.map_values(|g: (String, Vec<String>)| (g.0@, g.1@.map_values(|s: String| s@))) =~= gv.update(
                j as int,
                (view@, old_names.push(name@)),
            ));
            return;
        }
        j = j + 1;
    }
    proof {
        lemma_group_pos_none(gv, view@);
    }
    let mut p: usize = 0;
    assert(gv.skip(0) == gv);
    while p < gs.len() && !str_lt(view, gs[p].0.as_str())
        invariant
            p <= gs@.len(),
            gs@ == old(gs)@,
            gv == gs@.map_values(|g: (String, Vec<String>)| (g.0@, g.1@.map_values(|s: String| s@))),
            group_insert_pos(gv, view@) == p + group_insert_pos(gv.skip(p as int), view@),
        decreases gs.len() - p,
    {
        assert(gv.skip(p as int).drop_first() == gv.skip(p + 1));
        assert(gv.skip(p as int)[0] == gv[p as int]);
        p = p + 1;
    }
    proof {
        if p < gs@.len() {
            assert(gv.skip(p as int)[0] == gv[p as int]);
        }
    }
    let mut names: Vec<String> = Vec::new();
    names.push(copy_str(name));
    assert(names@.map_values(|s: String| s@) =~= seq![name@]);
    gs.insert(p, (copy_str(view), names));
    assert(gs@.map_values(|g: (String, Vec<String>)| (g.0@, g.1@.map_values(|s: String| s@))) =~= gv.insert(
        p as int,
        (view@, seq![name@]),
    ));
}

proof fn lemma_group_pos_at(gs: Seq<ViewGroup>, view: Seq<char>, j: int)
    requires
        0 <= j < gs.len(),
        gs[j].0 == view,
        forall|k: int| 0 <= k < j ==> gs[k].0 != view,
    ensures
        group_pos(gs, view) == Some(j),
    decreases j,
{
    if j > 0 {
        let t = gs.drop_first();
        assert forall|k: int| 0 <= k < j - 1 implies t[k].0 != view by {
            assert(t[k] == gs[k + 1]);
        }
        lemma_group_pos_at(t, view, j - 1);
    }
}

proof fn lemma_group_pos_none(gs: Seq<ViewGroup>, view: Seq<char>)
    requires
        forall|k: int| 0 <= k < gs.len() ==> gs[k].0 != view,
    ensures
        group_pos(gs, view) is None,
    decreases gs.len(),
{
    if gs.len() > 0 {
        let t = gs.drop_first();
        assert forall|k: int| 0 <= k < t.len() implies t[k].0 != view by {
            assert(t[k] == gs[k + 1]);
        }
        lemma_group_pos_none(t, view);
    }
}

fn is_known_view(v: &str) -> (b: bool)
    ensures
        b == known_view(v@),
{
    str_eq(v, "service_metric") || str_eq(v, "sql_metric") || str_eq(v, "mq_metric") || str_eq(
        v,
        "runtime_metric",
    )
}

/// Groups the selected metrics by view (views in name order, names in the
/// order given); `computed` ones are left to the front end and
/// `instance_metric` ones go to the instance request. With `known_only` (the
/// container query), metrics of a view the APM API does not know are skipped
/// and listed, so that no request is wasted on them.
pub fn plan_metrics(metrics: &[MetricDef], known_only: bool) -> (p: QueryPlan)
    ensures
        p.view() == plan_of(defs_view(metrics@), known_only),
{
    let mut p = QueryPlan { by_view: Vec::new(), instance: Vec::new(), skipped: Vec::new() };
    let mut i: usize = 0;
    assert(p.view() =~= plan_of(defs_view(metrics@).take(0), known_only));
    while i < metrics.len()
        invariant
            i <= metrics@.len(),
            p.view() == plan_of(defs_view(metrics@).take(i as int), known_only),
        decreases metrics.len() - i,
    {
        let ghost ms = defs_view(metrics@);
        assert(ms.take(i + 1).drop_last() == ms.take(i as int));
        assert(ms.take(i + 1).last() == (metrics@[i as int].name@, metrics@[i as int].view@));
        let m = &metrics[i];
        let ghost before = p.view();
        if str_eq(m.view.as_str(), "computed") {
        } else if str_eq(m.view.as_str(), "instance_metric") {
            p.instance.push(m.name.clone());
            assert(p.view() =~= (before.0, before.1.push(m.name@), before.2));
        } else if known_only && !is_known_view(m.view.as_str()) {
            p.skipped.push((m.name.clone(), m.view.clone()));
            assert(p.view() =~= (before.0, before.1, before.2.push((m.name@, m.view@))));
        } else {
            add_to_group(&mut p.by_view, m.view.as_str(), m.name.as_str());
            assert(p.view() =~= (group_add(before.0, m.view@, m.name@), before.1, before.2));
        }
        i = i + 1;
    }
    assert(defs_view(metrics@).take(metrics@.len() as int) == defs_view(metrics@));
    p
}

// ---------------------------------------------------------------------------
// Checking a query before it starts
// ---------------------------------------------------------------------------

/// The APM query needs a business system id, apps and metrics.
pub open spec fn apm_query_error(instance_id: Seq<char>, apps: nat, metrics: nat) -> Option<Seq<char>> {
    if instance_id.len() == 0 {
        Some("未配置业务系统 ID"@)
    } else if apps == 0 {
        Some("未选择应用"@)
    } else if metrics == 0 {
        Some("未选择指标"@)
    } else {
        None
    }
}

/// Refuses an APM query that cannot run.
pub fn check_apm_query(instance_id: &str, apps: usize, metrics: usize) -> (r: Result<(), String>)
    ensures
        match r {
            Ok(()) => apm_query_error(instance_id@, apps as nat, metrics as nat) is None,
            Err(e) => apm_query_error(instance_id@, apps as nat, metrics as nat) == Some(e@),
        },
{
    if instance_id.is_empty() {
        return Err(copy_str("未配置业务系统 ID"));
    }
    if apps == 0 {
        return Err(copy_str("未选择应用"));
    }
    if metrics == 0 {
        return Err(copy_str("未选择指标"));
    }
    Ok(())
}

/// The database query needs instances and metrics.
pub fn check_db_query(instances: usize, metrics: usize) -> (r: Result<(), String>)
    ensures
        match r {
            Ok(()) => instances > 0 && metrics > 0,
            Err(e) => if instances == 0 {
                e@ == "未选择数据库实例"@
            } else {
                metrics == 0 && e@ == "未选择指标"@
            },
        },
{
    if instances == 0 {
        return Err(copy_str("未选择数据库实例"));
    }
    if metrics == 0 {
        return Err(copy_str("未选择指标"));
    }
    Ok(())
}

/// The container query needs workloads.
pub fn check_container_query(deployments: usize) -> (r: Result<(), String>)
    ensures
        match r {
            Ok(()) => deployments > 0,
            Err(e) => deployments == 0 && e@ == "未选择工作负载"@,
        },
{
    if deployments == 0 {
        return Err(copy_str("未选择工作负载"));
    }
    Ok(())
}

// ---------------------------------------------------------------------------
// Putting results together
// ---------------------------------------------------------------------------

/// The value of the last result named `name` (later results overwrite earlier ones).
pub open spec fn last_value<V>(got: Seq<(String, V)>, name: Seq<char>) -> Option<V>
    decreases got.len(),
{
    if got.len() == 0 {
        None
    } else if got.last().0@ == name {
        Some(got.last().1)
    } else {
        last_value(got.drop_last(), name)
    }
}

/// The values in the order the metrics were asked, only those that came back.
pub open spec fn ordered_values<V>(names: Seq<Seq<char>>, got: Seq<(String, V)>) -> Seq<(Seq<char>, V)>
    decreases names.len(),
{
    if names.len() == 0 {
        Seq::empty()
    } else {
        let pre = ordered_values(names.drop_last(), got);
        match last_value(got, names.last()) {
            Some(v) => pre.push((names.last(), v)),
            None => pre,
        }
    }
}

fn find_last<V: Copy>(got: &[(String, V)], name: &str) -> (r: Option<V>)
    ensures
        r == last_value(got@, name@),
{
    let mut i: usize = got.len();
    assert(got@.take(got@.len() as int) == got@);
    while i > 0
        invariant
            i <= got@.len(),
            last_value(got@, name@) == last_value(got@.take(i as int), name@),
        decreases i,
    {
        assert(got@.take(i as int).drop_last() == got@.take(i - 1));
        assert(got@.take(i as int).last() == got@[i - 1]);
        if str_eq(got[i - 1].0.as_str(), name) {
            return Some(got[i - 1].1);
        }
        i = i - 1;
    }
    None
}

/// One application's values in the order of the asked metrics.
pub fn collect_values<V: Copy>(metrics: &[MetricDef], got: &[(String, V)]) -> (out: Vec<(String, V)>)
    ensures
        out@.map_values(|x: (String, V)| (x.0@, x.1)) == ordered_values(
            metrics@.map_values(|m: MetricDef| m.name@),
            got@,
        ),
{
    let ghost names = metrics@.map_values(|m: MetricDef| m.name@);
    let mut out: Vec<(String, V)> = Vec::new();
    let mut i: usize = 0;
    while i < metrics.len()
        invariant
            i <= metrics@.len(),
            names == metrics@.map_values(|m: MetricDef| m.name@),
            out@.map_values(|x: (String, V)| (x.0@, x.1)) == ordered_values(names.take(i as int), got@),
        decreases metrics.len() - i,
    {
        assert(names.take(i + 1).drop_last() == names.take(i as int));
        assert(names.take(i + 1).last() == metrics@[i as int].name@);
        match find_last(got, metrics[i].name.as_str()) {
            Some(v) => {
                let ghost before = out@.map_values(|x: (String, V)| (x.0@, x.1));
                out.push((metrics[i].name.clone(), v));
                assert(out@.map_values(|x: (String, V)| (x.0@, x.1)) =~= before.push((metrics@[i as int].name@, v)));
            },
            None => {},
        }
        i = i + 1;
    }
    assert(names.take(metrics@.len() as int) == names);
    out
}

/// The name shown for a database instance: `id（name）` when the name is
/// known and not empty, else the id.
pub open spec fn instance_label(id: Seq<char>, name: Option<Seq<char>>) -> Seq<char> {
    match name {
        Some(n) => if n.len() > 0 {
            id + "（"@ + n + "）"@
        } else {
            id
        },
        None => id,
    }
}

/// The label of a database instance in the results.
pub fn instance_display(id: &str, name: Option<&str>) -> (s: String)
    ensures
        s@ == instance_label(
            id@,
            match name {
                Some(n) => Some(n@),
                None => None,
            },
        ),
{
    let mut s = copy_str(id);
    match name {
        Some(n) => {
            if !n.is_empty() {
                push_str(&mut s, "（");
                push_str(&mut s, n);
                push_str(&mut s, "）");
            }
        },
        None => {},
    }
    s
}

// ---------------------------------------------------------------------------
// Session maintenance
// ---------------------------------------------------------------------------

/// What the keeper does when it wakes up.
pub enum KeeperStep {
    /// Nothing this time.
    Wait,
    /// Refresh the session in a hidden window.
    Refresh,
}

/// The keeper refreshes only when auto refresh is on, the session is usable,
/// no query runs, the session is at least `max(refresh_minutes, 1)` minutes
/// old and fewer than `max(max_fails, 1)` refreshes failed in a row.
pub open spec fn keeper_refreshes(c: Config, query_running: bool, fails: i64, now: i64) -> bool {
    &&& c.session_auto_refresh
    &&& session_ready_of(c.cookie@, c.csrf_code@)
    &&& !query_running
    &&& session_age(c.session_fetched_at, now) >= (if c.session_refresh_minutes > 1 {
        c.session_refresh_minutes as int
    } else {
        1
    }) * 60
    &&& fails < (if c.session_refresh_max_fails > 1 {
        c.session_refresh_max_fails
    } else {
        1
    })
}

/// The keeper never refreshes while a query runs, nor once the failures in a
/// row reached the limit, nor when automatic refresh is off.
pub proof fn law_keeper_stays_out_of_the_way(c: Config, query_running: bool, fails: i64, now: i64)
    ensures
        query_running ==> !keeper_refreshes(c, query_running, fails, now),
        fails >= c.session_refresh_max_fails && fails >= 1 ==> !keeper_refreshes(c, query_running, fails, now),
        !c.session_auto_refresh ==> !keeper_refreshes(c, query_running, fails, now),
{
}

/// The keeper measures the session's age in seconds against the threshold in
/// minutes: a session fetched less than `max(refresh_minutes, 1) * 60`
/// seconds ago is left alone; one at least that old is refreshed when the
/// other conditions hold (auto refresh on, a usable session, no query running,
/// failures below `max(max_fails, 1)`).
pub proof fn law_keeper_threshold_is_minutes(c: Config, query_running: bool, fails: i64, now: i64)
    ensures
        c.session_fetched_at > 0 && now - c.session_fetched_at < 60 * (if c.session_refresh_minutes >= 1 {
            c.session_refresh_minutes as int
        } else {
            1int
        }) ==> !keeper_refreshes(c, query_running, fails, now),
        c.session_fetched_at > 0 && now - c.session_fetched_at >= 60 * (if c.session_refresh_minutes >= 1 {
            c.session_refresh_minutes as int
        } else {
            1int
        }) && c.session_auto_refresh && session_ready_of(c.cookie@, c.csrf_code@) && !query_running && fails < (
        if c.session_refresh_max_fails >= 1 {
            c.session_refresh_max_fails
        } else {
            1i64
        }) ==> keeper_refreshes(c, query_running, fails, now),
{
}

/// The keeper's decision at time `now`.
pub fn keeper_step(c: &Config, query_running: bool, fails: i64, now: i64) -> (s: KeeperStep)
    ensures
        (s is Refresh) == keeper_refreshes(*c, query_running, fails, now),
{
    if !c.session_auto_refresh || !c.session_ready() || query_running {
        return KeeperStep::Wait;
    }
    let minutes: i128 = if c.session_refresh_minutes > 1 {
        c.session_refresh_minutes as i128
    } else {
        1
    };
    let age = c.session_age_at(now);
    if (age as i128) < minutes * 60 {
        return KeeperStep::Wait;
    }
    let max_fails: i64 = if c.session_refresh_max_fails > 1 {
        c.session_refresh_max_fails
    } else {
        1
    };
    if fails >= max_fails {
        return KeeperStep::Wait;
    }
    KeeperStep::Refresh
}

/// The failure count after a refresh: reset by a success, one more after a failure.
pub fn keeper_fails_after(fails: i64, ok: bool) -> (r: i64)
    requires
        fails < i64::MAX,
    ensures
        r == if ok {
            0
        } else {
            fails + 1
        },
{
    if ok {
        0
    } else {
        fails + 1
    }
}

/// Seconds to back off after a failed refresh that did not renew the session:
/// `max(backoff_minutes, 1) * 60`, or none when the session was renewed meanwhile.
pub fn keeper_backoff_secs(c: &Config, fetched_before: i64, fetched_now: i64) -> (r: Option<u64>)
    requires
        c.session_refresh_backoff_minutes <= u64::MAX / 60,
    ensures
        match r {
            Some(s) => fetched_now == fetched_before && s == (if c.session_refresh_backoff_minutes
                > 1 {
                c.session_refresh_backoff_minutes as int
            } else {
                1
            }) * 60,
            None => fetched_now != fetched_before,
        },
{
    if fetched_now != fetched_before {
        return None;
    }
    let m: u64 = if c.session_refresh_backoff_minutes > 1 {
        c.session_refresh_backoff_minutes as u64
    } else {
        1
    };
    Some(m * 60)
}

/// Whether a login window must be opened after an invalid session: not when
/// a login that finished meanwhile left a usable, newer session.
pub fn login_window_needed(c: &Config, fetched_before: i64) -> (b: bool)
    ensures
        b == !(session_ready_of(c.cookie@, c.csrf_code@) && c.session_fetched_at > fetched_before),
{
    !(c.session_ready() && c.session_fetched_at > fetched_before)
}

/// The session state shown in the settings.
pub struct SessionStatus {
    pub ready: bool,
    pub uin: String,
    pub fetched_at: i64,
    pub age_secs: i64,
    pub auto_refresh: bool,
    pub refresh_minutes: i64,
    pub backoff_minutes: i64,
    pub max_fails: i64,
    pub auto_quick_login: bool,
}

/// The session state of `c` at time `now`.
pub fn session_status_at(c: &Config, now: i64) -> (s: SessionStatus)
    ensures
        s.ready == session_ready_of(c.cookie@, c.csrf_code@),
        s.uin@ == crate::config::cookie_ids(c.cookie@).0,
        s.fetched_at == c.session_fetched_at,
        s.age_secs == session_age(c.session_fetched_at, now),
        s.auto_refresh == c.session_auto_refresh,
        s.refresh_minutes == c.session_refresh_minutes,
        s.backoff_minutes == c.session_refresh_backoff_minutes,
        s.max_fails == c.session_refresh_max_fails,
        s.auto_quick_login == c.session_auto_quick_login,
{
    let (uin, _) = c.extract_ids_from_cookie();
    SessionStatus {
        ready: c.session_ready(),
        uin,
        fetched_at: c.session_fetched_at,
        age_secs: c.session_age_at(now),
        auto_refresh: c.session_auto_refresh,
        refresh_minutes: c.session_refresh_minutes,
        backoff_minutes: c.session_refresh_backoff_minutes,
        max_fails: c.session_refresh_max_fails,
        auto_quick_login: c.session_auto_quick_login,
    }
}

/// The session state now.
pub fn session_status_of(c: &Config) -> (s: SessionStatus)
    ensures
        s.ready == session_ready_of(c.cookie@, c.csrf_code@),
        s.uin@ == crate::config::cookie_ids(c.cookie@).0,
        s.fetched_at == c.session_fetched_at,
        c.session_fetched_at <= 0 ==> s.age_secs == i64::MAX,
        s.auto_refresh == c.session_auto_refresh,
        s.refresh_minutes == c.session_refresh_minutes,
        s.backoff_minutes == c.session_refresh_backoff_minutes,
        s.max_fails == c.session_refresh_max_fails,
        s.auto_quick_login == c.session_auto_quick_login,
{
    session_status_at(c, crate::config::now_secs())
}

/// The configuration a query uses: the user fields it was given, the session
/// from disk (the front end never holds it).
pub fn with_session(disk: &Config, config: Config) -> (r: Config)
    ensures
        r == (Config {
            cookie: disk.cookie,
            csrf_code: disk.csrf_code,
            session_fetched_at: disk.session_fetched_at,
            ..config
        }),
{
    disk.merge_user_config(config)
}


// ---------------------------------------------------------------------------
// Database instances as the front end lists them
// ---------------------------------------------------------------------------

/// A database instance as the front end shows it.
pub struct DbInstanceDto {
    pub id: String,
    pub name: String,
}

/// The instances as the front end lists them, in the same order.
pub fn instance_dtos(list: Vec<crate::db::DbInstance>) -> (r: Vec<DbInstanceDto>)
    ensures
        r@.len() == list@.len(),
        forall|i: int|
            0 <= i < r@.len() ==> (#[trigger] r@[i]).id == list@[i].id && r@[i].name == list@[i].name,
{
    let ghost orig = list@;
    let mut rest = list;
    let mut out: Vec<DbInstanceDto> = Vec::new();
    while rest.len() > 0
        invariant
            out@.len() + rest@.len() == orig.len(),
            rest@ == orig.skip(out@.len() as int),
            forall|i: int|
                0 <= i < out@.len() ==> (#[trigger] out@[i]).id == orig[i].id && out@[i].name
                    == orig[i].name,
        decreases rest.len(),
    {
        let ghost k = out@.len();
        let d = rest.remove(0);
        assert(d == orig[k as int]);
        assert(rest@ == orig.skip(k as int + 1));
        out.push(DbInstanceDto { id: d.id, name: d.name });
    }
    out
}

// ---------------------------------------------------------------------------
// The rows of a database query
// ---------------------------------------------------------------------------

/// A copy of a list of values, key for key.
fn copy_values<V: Copy>(vals: &[(String, V)]) -> (out: Vec<(String, V)>)
    ensures
        out@.map_values(|x: (String, V)| (x.0@, x.1)) == vals@.map_values(|x: (String, V)| (x.0@, x.1)),
{
    let mut out: Vec<(String, V)> = Vec::new();
    let mut i: usize = 0;
    while i < vals.len()
        invariant
            i <= vals@.len(),
            out@.map_values(|x: (String, V)| (x.0@, x.1)) == vals@.take(i as int).map_values(
                |x: (String, V)| (x.0@, x.1),
            ),
        decreases vals.len() - i,
    {
        let ghost before = out@.map_values(|x: (String, V)| (x.0@, x.1));
        out.push((copy_str(vals[i].0.as_str()), vals[i].1));
        proof {
            assert(vals@.take(i + 1) =~= vals@.take(i as int).push(vals@[i as int]));
            assert(out@.map_values(|x: (String, V)| (x.0@, x.1)) =~= before.push((vals@[i as int].0@, vals@[i as int].1)));
            assert(vals@.take(i + 1).map_values(|x: (String, V)| (x.0@, x.1)) =~= vals@.take(i as int).map_values(
                |x: (String, V)| (x.0@, x.1),
            ).push((vals@[i as int].0@, vals@[i as int].1)));
        }
        i = i + 1;
    }
    assert(vals@.take(vals@.len() as int) =~= vals@);
    out
}

/// The rows of a database query: one per instance that was sent, in the
/// asked order (after Stop, the instances never sent get no row). Each row
/// is labelled with the instance's id and known name, holds the values its
/// query gave (`got[i]`) and its own error (`errors[i]`).
pub fn instance_rows<V: Copy>(
    ids: &[String],
    names: &[Option<String>],
    dispatched: usize,
    got: &[Vec<(String, V)>],
    errors: &[Option<String>],
) -> (out: Vec<WorkloadReport<V>>)
    requires
        names@.len() == ids@.len(),
        dispatched <= ids@.len(),
        got@.len() == dispatched,
        errors@.len() == dispatched,
    ensures
        out@.len() == dispatched,
        forall|i: int|
            0 <= i < dispatched ==> {
                &&& (#[trigger] out@[i]).name@ == instance_label(
                    ids@[i]@,
                    match names@[i] {
                        Some(n) => Some(n@),
                        None => None,
                    },
                )
                &&& out@[i].values@.map_values(|x: (String, V)| (x.0@, x.1)) == got@[i]@.map_values(
                    |x: (String, V)| (x.0@, x.1),
                )
                &&& match errors@[i] {
                    Some(e) => out@[i].error matches Some(x) && x@ == e@,
                    None => out@[i].error is None,
                }
            },
{
    let mut out: Vec<WorkloadReport<V>> = Vec::new();
    let mut i: usize = 0;
    while i < dispatched
        invariant
            i <= dispatched,
            names@.len() == ids@.len(),
            dispatched <= ids@.len(),
            got@.len() == dispatched,
            errors@.len() == dispatched,
            out@.len() == i,
            forall|k: int|
                0 <= k < i ==> {
                    &&& (#[trigger] out@[k]).name@ == instance_label(
                        ids@[k]@,
                        match names@[k] {
                            Some(n) => Some(n@),
                            None => None,
                        },
                    )
                    &&& out@[k].values@.map_values(|x: (String, V)| (x.0@, x.1)) == got@[k]@.map_values(
                        |x: (String, V)| (x.0@, x.1),
                    )
                    &&& match errors@[k] {
                        Some(e) => out@[k].error matches Some(x) && x@ == e@,
                        None => out@[k].error is None,
                    }
                },
        decreases dispatched - i,
    {
        let name: Option<&str> = match &names[i] {
            Some(n) => Some(n.as_str()),
            None => None,
        };
        let label = instance_display(ids[i].as_str(), name);
        let values = copy_values(got[i].as_slice());
        let error = match &errors[i] {
            Some(e) => Some(copy_str(e.as_str())),
            None => None,
        };
        out.push(WorkloadReport { name: label, values, error });
        i = i + 1;
    }
    out
}

// ---------------------------------------------------------------------------
// The rows of an APM query
// ---------------------------------------------------------------------------

/// The rows of an APM query, one per asked application in the asked order:
/// its name, the values it got (`got[i]`) in the order of the asked metrics,
/// and its own first error (`errors[i]`), so one application failing marks
/// only its own row.
pub fn app_rows<V: Copy>(
    apps: &[String],
    metrics: &[MetricDef],
    got: &[Vec<(String, V)>],
    errors: &[Option<String>],
) -> (out: Vec<WorkloadReport<V>>)
    requires
        got@.len() == apps@.len(),
        errors@.len() == apps@.len(),
    ensures
        out@.len() == apps@.len(),
        forall|i: int|
            0 <= i < apps@.len() ==> {
                &&& (#[trigger] out@[i]).name@ == apps@[i]@
                &&& out@[i].values@.map_values(|x: (String, V)| (x.0@, x.1)) == ordered_values(
                    metrics@.map_values(|m: MetricDef| m.name@),
                    got@[i]@,
                )
                &&& match errors@[i] {
                    Some(e) => out@[i].error matches Some(x) && x@ == e@,
                    None => out@[i].error is None,
                }
            },
{
    let mut out: Vec<WorkloadReport<V>> = Vec::new();
    let mut i: usize = 0;
    while i < apps.len()
        invariant
            i <= apps@.len(),
            got@.len() == apps@.len(),
            errors@.len() == apps@.len(),
            out@.len() == i,
            forall|k: int|
                0 <= k < i ==> {
                    &&& (#[trigger] out@[k]).name@ == apps@[k]@
                    &&& out@[k].values@.map_values(|x: (String, V)| (x.0@, x.1)) == ordered_values(
                        metrics@.map_values(|m: MetricDef| m.name@),
                        got@[k]@,
                    )
                    &&& match errors@[k] {
                        Some(e) => out@[k].error matches Some(x) && x@ == e@,
                        None => out@[k].error is None,
                    }
                },
        decreases apps.len() - i,
    {
        let values = collect_values(metrics, got[i].as_slice());
        let error = match &errors[i] {
            Some(e) => Some(copy_str(e.as_str())),
            None => None,
        };
        out.push(WorkloadReport { name: copy_str(apps[i].as_str()), values, error });
        i = i + 1;
    }
    out
}

// ---------------------------------------------------------------------------
// One workload of a container query
// ---------------------------------------------------------------------------

/// What the dispatch loop of a query does before its next task.
pub enum Dispatch {
    /// The user pressed Stop: no further task is sent.
    Stop,
    /// Send the task with this index.
    Send(usize),
    /// Every task was sent.
    Finished,
}

/// Before task `i` of `n` is sent: finished when all were sent; otherwise
/// the Stop button is checked first, and only then the task goes out.
pub fn dispatch_next(n: usize, i: usize, cancelled: bool) -> (r: Dispatch)
    ensures
        i >= n ==> r is Finished,
        i < n && cancelled ==> r is Stop,
        i < n && !cancelled ==> (r matches Dispatch::Send(j) && j == i),
{
    if i >= n {
        Dispatch::Finished
    } else if cancelled {
        Dispatch::Stop
    } else {
        Dispatch::Send(i)
    }
}

/// One APM request of a workload.
pub enum ApmStage {
    /// The metrics of the view with this index in the plan.
    View(usize),
    /// The instance metrics.
    Instance,
}

/// The APM requests of a workload: none when it has no `SW_AGENT_NAME` (the
/// report then says so); else one per planned view, in plan order, and then
/// the instance metrics when any are planned.
pub fn apm_stages(apm_name: &str, n_views: usize, has_instance: bool) -> (r: Option<Vec<ApmStage>>)
    requires
        n_views < usize::MAX,
    ensures
        r is None <==> apm_name@.len() == 0,
        r matches Some(v) ==> {
            &&& v@.len() == n_views + if has_instance {
                1int
            } else {
                0int
            }
            &&& forall|i: int| 0 <= i < n_views ==> (#[trigger] v@[i] matches ApmStage::View(k) && k == i)
            &&& has_instance ==> v@[n_views as int] is Instance
        },
{
    if apm_name.is_empty() {
        return None;
    }
    let mut v: Vec<ApmStage> = Vec::new();
    let mut i: usize = 0;
    while i < n_views
        invariant
            i <= n_views,
            v@.len() == i,
            forall|k: int| 0 <= k < i ==> (#[trigger] v@[k] matches ApmStage::View(j) && j == k),
        decreases n_views - i,
    {
        v.push(ApmStage::View(i));
        i = i + 1;
    }
    if has_instance {
        v.push(ApmStage::Instance);
    }
    Some(v)
}


/// The parts of a workload's query, each with its own error message.
pub enum QueryStage {
    Pods,
    ContainerUtil,
    ApmView,
    ApmInstance,
}

/// The start of the error message of a stage.
pub open spec fn stage_prefix(stage: QueryStage) -> Seq<char> {
    match stage {
        QueryStage::Pods => "Pod 查询失败: "@,
        QueryStage::ContainerUtil => "容器指标查询失败: "@,
        QueryStage::ApmView => "APM 指标查询失败: "@,
        QueryStage::ApmInstance => "APM 实例指标查询失败: "@,
    }
}

/// What a workload's query gathered: its display name, the values in the
/// order they came, and the first error.
pub struct WorkloadReport<V> {
    pub name: String,
    pub values: Vec<(String, V)>,
    pub error: Option<String>,
}

/// The message of a workload that is not in the namespace.
pub open spec fn missing_workload_text() -> Seq<char> {
    "工作负载不存在"@
}

/// The message of a workload without `SW_AGENT_NAME`.
pub open spec fn missing_agent_text() -> Seq<char> {
    "未配置 SW_AGENT_NAME，无法关联 APM 应用"@
}

impl<V: Copy> WorkloadReport<V> {
    /// The report of a workload that is not in the namespace.
    pub fn missing() -> (r: WorkloadReport<V>)
        ensures
            r.name@.len() == 0,
            r.values@.len() == 0,
            r.error matches Some(e) && e@ == missing_workload_text(),
    {
        WorkloadReport { name: String::new(), values: Vec::new(), error: Some(copy_str("工作负载不存在")) }
    }

    /// An empty report for the workload shown as `name`.
    pub fn new(name: &str) -> (r: WorkloadReport<V>)
        ensures
            r.name@ == name@,
            r.values@.len() == 0,
            r.error is None,
    {
        WorkloadReport { name: copy_str(name), values: Vec::new(), error: None }
    }

    /// Adds one value at the end.
    pub fn push(&mut self, name: &str, v: V)
        ensures
            final(self).name == old(self).name,
            final(self).error == old(self).error,
            final(self).values@.len() == old(self).values@.len() + 1,
            forall|i: int|
                0 <= i < old(self).values@.len() ==> final(self).values@[i] == old(self).values@[i],
            final(self).values@.last().0@ == name@,
            final(self).values@.last().1 == v,
    {
        self.values.push((copy_str(name), v));
    }

    /// Notes an error; the first one is kept.
    pub fn note_error(&mut self, msg: String)
        ensures
            final(self).name == old(self).name,
            final(self).values == old(self).values,
            old(self).error is Some ==> final(self).error == old(self).error,
            old(self).error is None ==> final(self).error == Some(msg),
    {
        if self.error.is_none() {
            self.error = Some(msg);
        }
    }

    /// Notes the failure of a stage; the first error is kept.
    pub fn stage_failed(&mut self, stage: QueryStage, e: &str)
        ensures
            final(self).name == old(self).name,
            final(self).values == old(self).values,
            old(self).error is Some ==> final(self).error == old(self).error,
            old(self).error is None ==> (final(self).error matches Some(m) && m@ == stage_prefix(stage)
                + e@),
    {
        let mut m = match stage {
            QueryStage::Pods => copy_str("Pod 查询失败: "),
            QueryStage::ContainerUtil => copy_str("容器指标查询失败: "),
            QueryStage::ApmView => copy_str("APM 指标查询失败: "),
            QueryStage::ApmInstance => copy_str("APM 实例指标查询失败: "),
        };
        push_str(&mut m, e);
        self.note_error(m);
    }

    /// The workload has no `SW_AGENT_NAME`, so no APM metric can be matched.
    pub fn agent_missing(&mut self)
        ensures
            final(self).name == old(self).name,
            final(self).values == old(self).values,
            old(self).error is Some ==> final(self).error == old(self).error,
            old(self).error is None ==> (final(self).error matches Some(m) && m@ == missing_agent_text()),
    {
        self.note_error(copy_str("未配置 SW_AGENT_NAME，无法关联 APM 应用"));
    }
}

/// The log line for a metric skipped because of an unknown view.
pub fn skipped_metric_log(name: &str, view: &str) -> (r: String)
    ensures
        r@ == "跳过指标 "@ + name@ + "（视图名 \""@ + view@ + "\" 不是 APM 的视图，可能是旧配置残留）"@,
{
    let mut r = copy_str("跳过指标 ");
    push_str(&mut r, name);
    push_str(&mut r, "（视图名 \"");
    push_str(&mut r, view);
    push_str(&mut r, "\" 不是 APM 的视图，可能是旧配置残留）");
    r
}

// ---------------------------------------------------------------------------
// One login capture
// ---------------------------------------------------------------------------

/// The start of the label of every login window.
pub open spec fn login_label_prefix() -> Seq<char> {
    "cloud-login"@
}

/// The label of the login window opened at `now_ms`.
pub fn login_label(now_ms: i64) -> (r: String)
    ensures
        r@ == login_label_prefix() + "-"@ + crate::text::decimal(now_ms as int),
{
    let mut r = copy_str("cloud-login");
    push_str(&mut r, "-");
    push_str(&mut r, crate::text::i64_text(now_ms).as_str());
    r
}

/// Whether a window is a left-over login window.
pub fn is_login_label(label: &str) -> (b: bool)
    ensures
        b == crate::text::starts_with(label@, login_label_prefix()),
{
    crate::text::has_prefix(&chars_of(label), &chars_of("cloud-login"))
}

/// The quick login is clicked only in a visible window opened by the user,
/// when the setting allows it.
pub fn use_quick_login(silent: bool, setting: bool) -> (b: bool)
    ensures
        b == (!silent && setting),
{
    !silent && setting
}

/// The text of the error for a captured session that did not pass the check.
pub open spec fn rejected_text(e: Seq<char>, cookie: Seq<char>) -> Seq<char> {
    "新会话未通过校验，已保留原会话："@ + crate::text::remove_all(e, crate::cred::mark()) + "（Cookie 完整度："@
        + crate::login::cookie_description(cookie) + "）"@
}

/// The error when the captured session did not pass the check: the reason
/// without its marker, and how complete the cookie was (never its values).
pub fn rejected_session_error(e: &str, cookie: &str) -> (r: String)
    ensures
        r@ == rejected_text(e@, cookie@),
{
    let mut r = copy_str("新会话未通过校验，已保留原会话：");
    push_str(&mut r, crate::cred::strip(e).as_str());
    push_str(&mut r, "（Cookie 完整度：");
    push_str(&mut r, crate::login::describe_cookie(cookie).as_str());
    push_str(&mut r, "）");
    r
}

/// What a finished login capture comes to.
pub enum CaptureOutcome {
    /// The new session passed the check: the configuration to save, and the
    /// names of the fields that kept their stored value.
    Saved(Config, Vec<&'static str>),
    /// Nothing is saved and the stored session stays; the error for the caller.
    Refused(String),
}

/// Decides a login capture. A cookie without `uin` is never checked nor
/// saved. Otherwise `check` is the outcome of the server-side check of the new
/// session: it is saved (over `stored`, at `now`) only when the check passed,
/// and refused with the reason otherwise.
pub fn capture_outcome(
    stored: Config,
    cookie: String,
    csrf_code: String,
    check: Option<Result<(), String>>,
    now: i64,
) -> (r: CaptureOutcome)
    requires
        check is Some <==> crate::login::cookie_has_key(cookie@, "uin"@),
    ensures
        check is None ==> (r matches CaptureOutcome::Refused(e) && e@ == "未检测到登录态"@),
        check matches Some(Err(x)) ==> (r matches CaptureOutcome::Refused(e) && e@ == rejected_text(
            x@,
            cookie@,
        )),
        check matches Some(Ok(_)) ==> (r matches CaptureOutcome::Saved(c, kept) && {
            &&& c.cookie@ == crate::config::login_value(stored.cookie@, cookie@)
            &&& c.csrf_code@ == crate::config::login_value(stored.csrf_code@, csrf_code@)
            &&& c.session_fetched_at == now
            &&& crate::config::same_user_fields(c, stored)
            &&& kept@.map_values(|s: &str| s@) == crate::config::kept_fields(
                stored.cookie@,
                stored.csrf_code@,
                cookie@,
                csrf_code@,
            )
        }),
{
    match check {
        None => CaptureOutcome::Refused(copy_str("未检测到登录态")),
        Some(Err(x)) => CaptureOutcome::Refused(rejected_session_error(x.as_str(), cookie.as_str())),
        Some(Ok(_)) => {
            let mut c = stored;
            let kept = c.apply_login_at(cookie, csrf_code, now);
            CaptureOutcome::Saved(c, kept)
        },
    }
}

/// `-` for an empty id.
pub open spec fn or_dash(s: Seq<char>) -> Seq<char> {
    if s.len() == 0 {
        "-"@
    } else {
        s
    }
}

fn push_or_dash(r: &mut String, s: &str)
    ensures
        final(r)@ == old(r)@ + or_dash(s@),
{
    if s.is_empty() {
        push_str(r, "-");
    } else {
        push_str(r, s);
    }
}

/// The log line once a new session was saved (`cookie_len` is the cookie's
/// length in bytes).
pub fn session_updated_log(cookie_len: usize, uin: &str, owner_uin: &str) -> (r: String)
    ensures
        r@ == "会话已更新（cookie "@ + crate::text::decimal(cookie_len as int) + " 字符，uin="@
            + or_dash(uin@) + " ownerUin="@ + or_dash(owner_uin@) + "）"@,
{
    let mut r = copy_str("会话已更新（cookie ");
    push_str(&mut r, crate::text::u64_text(cookie_len as u64).as_str());
    push_str(&mut r, " 字符，uin=");
    push_or_dash(&mut r, uin);
    push_str(&mut r, " ownerUin=");
    push_or_dash(&mut r, owner_uin);
    push_str(&mut r, "）");
    r
}

/// The log line for the session fields that a login left as they were.
pub fn kept_fields_log(kept: &Vec<&str>) -> (r: String)
    ensures
        r@ == "以下字段未更新，沿用原值："@ + crate::text::joined(
            kept@.map_values(|s: &str| s@),
            ", "@,
        ),
{
    let mut parts: Vec<String> = Vec::new();
    let mut i: usize = 0;
    while i < kept.len()
        invariant
            i <= kept@.len(),
            parts@.len() == i,
            forall|j: int| 0 <= j < i ==> (#[trigger] parts@[j])@ == kept@[j]@,
        decreases kept.len() - i,
    {
        parts.push(copy_str(kept[i]));
        i = i + 1;
    }
    assert(crate::text::views(parts@) =~= kept@.map_values(|s: &str| s@));
    let mut r = copy_str("以下字段未更新，沿用原值：");
    push_str(&mut r, crate::text::join(&parts, ", ").as_str());
    r
}

/// The log line once the login window is open, waiting at most `secs`.
pub fn login_window_open_log(secs: u64) -> (r: String)
    ensures
        r@ == "登录窗口已打开，请在窗口里扫码（最多 "@ + crate::text::decimal(secs as int)
            + " 秒）；扫完请重新点「开始统计」"@,
{
    let mut r = copy_str("登录窗口已打开，请在窗口里扫码（最多 ");
    push_str(&mut r, crate::text::u64_text(secs).as_str());
    push_str(&mut r, " 秒）；扫完请重新点「开始统计」");
    r
}

} // verus!
