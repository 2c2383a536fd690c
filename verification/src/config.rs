//! The portable configuration (kept next to the executable as `config.json`).
//!
//! The session is three fields: `cookie`, `csrf_code` and `session_fetched_at`.
//! `uin` / `owner_uin` are never stored: they are read from the cookie each time.
use crate::login::{bkn, bkn_value};
use crate::text::{
    all_digits, blank, char_pos, char_position, is_digit, lead_ws, lemma_char_pos_at, lemma_split_concat,
    lemma_split_single, trail_ws, chars_eq_str, chars_of, copy_str, decimal, has_prefix,
    i64_text, is_blank, split_on, split_str, string_of, string_of_range, trim, trim_chars,
    vec_range,
};
use std::collections::BTreeMap;
use vstd::prelude::*;

verus! {

/// One selectable metric: its name, the view it is queried in, and its label.
pub struct MetricDef {
    pub name: String,
    pub view: String,
    pub cn: String,
}

impl Clone for MetricDef {
    fn clone(&self) -> (r: Self)
        ensures
            r == *self,
    {
        MetricDef { name: self.name.clone(), view: self.view.clone(), cn: self.cn.clone() }
    }
}

impl Default for MetricDef {
    fn default() -> (r: Self)
        ensures
            r.name@.len() == 0,
            r.view@ == "service_metric"@,
            r.cn@.len() == 0,
    {
        MetricDef { name: String::new(), view: copy_str("service_metric"), cn: String::new() }
    }
}

/// A saved scenario: enabled sources, apps, database instances and metrics.
pub struct Scenario {
    pub name: String,
    /// The data sources this scenario enables (such as `["apm", "mysql"]`).
    pub sources: Vec<String>,
    pub apps: Vec<String>,
    pub db_instances: BTreeMap<String, Vec<String>>,
    pub metrics: Vec<MetricDef>,
}

impl Scenario {
    /// `other` holds the same data as `self`.
    pub open spec fn same_as(self, other: Scenario) -> bool {
        &&& self.name == other.name
        &&& self.sources@ == other.sources@
        &&& self.apps@ == other.apps@
        &&& self.db_instances@ == other.db_instances@
        &&& self.metrics@ == other.metrics@
    }
}

impl Clone for Scenario {
    fn clone(&self) -> (r: Self)
        ensures
            self.same_as(r),
    {
        let r = Scenario {
            name: self.name.clone(),
            sources: self.sources.clone(),
            apps: self.apps.clone(),
            db_instances: self.db_instances.clone(),
            metrics: self.metrics.clone(),
        };
        assert(r.sources@ =~= self.sources@);
        assert(r.apps@ =~= self.apps@);
        assert(r.metrics@ =~= self.metrics@);
        r
    }
}

/// The whole configuration.
pub struct Config {
    /// Region, `ap-shanghai` by default.
    pub region: String,
    /// Numeric region id of the console API, 4 (Shanghai) by default.
    pub region_id: i64,
    /// The business system id (APM team), such as `apm-tHxaVZjHH`.
    pub instance_id: String,
    /// Session cookie (written by the backend only).
    pub cookie: String,
    /// Session csrf code (written by the backend only).
    pub csrf_code: String,
    /// When the session was fetched (Unix seconds); 0 when unknown.
    pub session_fetched_at: i64,
    /// A session older than this many minutes is worth refreshing.
    pub session_refresh_minutes: i64,
    /// First back-off after a failed refresh, in minutes.
    pub session_refresh_backoff_minutes: i64,
    /// Background refresh stops after this many failures in a row.
    pub session_refresh_max_fails: i64,
    /// Master switch of the background refresh.
    pub session_auto_refresh: bool,
    /// Click the WeChat quick login automatically in the visible login window.
    pub session_auto_quick_login: bool,
    /// Enabled data sources: "mysql" | "redis" | "mongodb" | "container".
    pub enabled_sources: Vec<String>,
    /// 15m/30m/1h/2h/6h/12h/24h/today/yesterday/3d/7d.
    pub quick_range: String,
    pub use_custom: bool,
    /// YYYY-MM-DDTHH:mm
    pub custom_start: String,
    pub custom_end: String,
    pub selected_apps: Vec<String>,
    pub selected_metrics: Vec<MetricDef>,
    pub metric_cache: Vec<MetricDef>,
    /// Database type to the selected instance ids.
    pub selected_db_instances: BTreeMap<String, Vec<String>>,
    pub scenarios: Vec<Scenario>,
    /// Active scenario; empty or "自定义" for manual mode.
    pub active_scenario: String,
    pub container_cluster: String,
    pub container_namespace: String,
    pub selected_deployments: Vec<String>,
}

/// The default enabled sources: only the container source.
pub fn default_sources() -> (v: Vec<String>)
    ensures
        v@.len() == 1,
        v@[0]@ == "container"@,
{
    let mut v: Vec<String> = Vec::new();
    v.push(copy_str("container"));
    v
}

/// Default refresh threshold in minutes.
pub fn default_refresh_minutes() -> (r: i64)
    ensures
        r == 10,
{
    10
}

/// Default back-off in minutes.
pub fn default_backoff_minutes() -> (r: i64)
    ensures
        r == 2,
{
    2
}

/// Default number of failures before the background refresh stops.
pub fn default_max_fails() -> (r: i64)
    ensures
        r == 3,
{
    3
}

/// `true`, the default of the two switches.
pub fn default_true() -> (r: bool)
    ensures
        r,
{
    true
}

/// `uin` value: every leading `o` / `O` removed.
pub open spec fn strip_uin_affix(v: Seq<char>) -> Seq<char>
    decreases v.len(),
{
    if v.len() > 0 && (v[0] == 'o' || v[0] == 'O') {
        strip_uin_affix(v.drop_first())
    } else {
        v
    }
}

/// `ownerUin` value: one leading `O` / `o` and one trailing `G` / `g` removed.
pub open spec fn strip_owner_affix(v: Seq<char>) -> Seq<char> {
    let a = if v.len() > 0 && (v[0] == 'O' || v[0] == 'o') {
        v.drop_first()
    } else {
        v
    };
    if a.len() > 0 && (a.last() == 'G' || a.last() == 'g') {
        a.drop_last()
    } else {
        a
    }
}

/// The ids after reading one `;`-separated piece of the cookie.
pub open spec fn apply_id_piece(ids: (Seq<char>, Seq<char>), piece: Seq<char>) -> (
    Seq<char>,
    Seq<char>,
) {
    let p = trim(piece);
    match char_pos(p, '=') {
        None => ids,
        Some(i) => {
            let k = p.take(i as int);
            let v = trim(p.skip(i as int + 1));
            if k == "uin"@ {
                (strip_uin_affix(v), ids.1)
            } else if k == "ownerUin"@ {
                (ids.0, strip_owner_affix(v))
            } else {
                ids
            }
        },
    }
}

/// The ids after reading the pieces in order; later pieces win.
pub open spec fn ids_of_pieces(pieces: Seq<Seq<char>>) -> (Seq<char>, Seq<char>)
    decreases pieces.len(),
{
    if pieces.len() == 0 {
        (Seq::<char>::empty(), Seq::<char>::empty())
    } else {
        apply_id_piece(ids_of_pieces(pieces.drop_last()), pieces.last())
    }
}

/// `(uin, ownerUin)` read from a cookie.
pub open spec fn cookie_ids(cookie: Seq<char>) -> (Seq<char>, Seq<char>) {
    ids_of_pieces(split_on(cookie, ';'))
}

proof fn lemma_uin_piece(d: Seq<char>, ids: (Seq<char>, Seq<char>))
    requires
        d.len() > 0,
        all_digits(d),
    ensures
        apply_id_piece(ids, "uin=o"@ + d) == (d, ids.1),
{
    reveal_strlit("uin=o");
    reveal_strlit("uin");
    reveal_strlit("ownerUin");
    let a = "uin=o"@ + d;
    assert(is_digit(d[0]) && is_digit(d.last()));
    assert(lead_ws(a) == 0);
    assert(a.skip(0) =~= a);
    assert(a.last() == d.last());
    assert(trail_ws(a) == 0);
    assert(a.take(a.len() as int) =~= a);
    assert(trim(a) =~= a);
    lemma_char_pos_at(a, '=', 3);
    assert(a.take(3) =~= "uin"@);
    let va = a.skip(4);
    assert(va =~= seq!['o'] + d);
    assert(lead_ws(va) == 0);
    assert(va.skip(0) =~= va);
    assert(va.last() == d.last());
    assert(trail_ws(va) == 0);
    assert(va.take(va.len() as int) =~= va);
    assert(trim(va) =~= va);
    assert(va.drop_first() =~= d);
    assert(strip_uin_affix(d) == d);
    assert(strip_uin_affix(va) == d);
}

proof fn lemma_owner_piece(e: Seq<char>, ids: (Seq<char>, Seq<char>))
    requires
        e.len() > 0,
        all_digits(e),
    ensures
        apply_id_piece(ids, seq![' '] + "ownerUin=O"@ + e + "G"@) == (ids.0, e),
{
    reveal_strlit("ownerUin=O");
    reveal_strlit("G");
    reveal_strlit("uin");
    reveal_strlit("ownerUin");
    let b = seq![' '] + "ownerUin=O"@ + e + "G"@;
    let bb = b.skip(1);
    assert(bb =~= "ownerUin=O"@ + e + "G"@);
    assert(b.drop_first() =~= bb);
    assert(lead_ws(bb) == 0);
    assert(lead_ws(b) == 1);
    assert(bb.last() == 'G');
    assert(trail_ws(bb) == 0);
    assert(bb.take(bb.len() as int) =~= bb);
    assert(trim(b) =~= bb);
    lemma_char_pos_at(bb, '=', 8);
    assert(bb.take(8) =~= "ownerUin"@);
    assert(bb.take(8) != "uin"@);
    let vb = bb.skip(9);
    assert(vb =~= seq!['O'] + e + seq!['G']);
    assert(is_digit(e[0]));
    assert(lead_ws(vb) == 0);
    assert(vb.skip(0) =~= vb);
    assert(vb.last() == 'G');
    assert(trail_ws(vb) == 0);
    assert(vb.take(vb.len() as int) =~= vb);
    assert(trim(vb) =~= vb);
    assert(vb.drop_first() =~= e + seq!['G']);
    assert((e + seq!['G']).drop_last() =~= e);
    assert(strip_owner_affix(vb) == e);
}

/// The console's own cookie form `uin=o<d>; ownerUin=O<e>G`, with `<d>` and
/// `<e>` runs of digits, gives the ids `<d>` and `<e>`.
pub proof fn law_console_cookie_ids(d: Seq<char>, e: Seq<char>)
    requires
        d.len() > 0,
        e.len() > 0,
        all_digits(d),
        all_digits(e),
    ensures
        cookie_ids("uin=o"@ + d + "; ownerUin=O"@ + e + "G"@) == (d, e),
{
    reveal_strlit("uin=o");
    reveal_strlit("; ownerUin=O");
    reveal_strlit("ownerUin=O");
    reveal_strlit("G");
    let a = "uin=o"@ + d;
    let b = seq![' '] + "ownerUin=O"@ + e + "G"@;
    let c = "uin=o"@ + d + "; ownerUin=O"@ + e + "G"@;
    assert(c =~= a + seq![';'] + b);
    assert forall|i: int| 0 <= i < a.len() implies a[i] != ';' by {
        if i >= 5 {
            assert(a[i] == d[i - 5] && is_digit(d[i - 5]));
        }
    }
    assert forall|i: int| 0 <= i < b.len() implies b[i] != ';' by {
        if 11 <= i < 11 + e.len() {
            assert(b[i] == e[i - 11] && is_digit(e[i - 11]));
        }
    }
    lemma_split_concat(a, b, ';');
    lemma_split_single(a, ';');
    lemma_split_single(b, ';');
    let pieces = split_on(c, ';');
    assert(pieces =~= seq![a, b]);
    assert(pieces.drop_last() =~= seq![a]);
    assert(seq![a].drop_last() =~= Seq::<Seq<char>>::empty());
    let none = (Seq::<char>::empty(), Seq::<char>::empty());
    lemma_uin_piece(d, none);
    lemma_owner_piece(e, (d, Seq::<char>::empty()));
    assert(ids_of_pieces(Seq::<Seq<char>>::empty()) == none);
    assert(seq![a].last() == a);
    assert(ids_of_pieces(seq![a]) == apply_id_piece(none, a));
    assert(ids_of_pieces(seq![a]) == (d, Seq::<char>::empty()));
    assert(pieces.last() == b);
    assert(ids_of_pieces(pieces) == (d, e));
}

/// The value of the first piece (trimmed) that starts with `skey=`.
pub open spec fn first_skey(pieces: Seq<Seq<char>>) -> Option<Seq<char>>
    decreases pieces.len(),
{
    if pieces.len() == 0 {
        None
    } else {
        let p = trim(pieces[0]);
        if p.len() >= 5 && p.take(5) == "skey="@ {
            Some(p.skip(5))
        } else {
            first_skey(pieces.drop_first())
        }
    }
}

/// The csrf code that the old gateway accepts: `bkn(skey)` when the cookie has
/// a non-empty `skey` with a positive hash, the stored csrf code otherwise.
pub open spec fn capi_csrf_of(cookie: Seq<char>, csrf_code: Seq<char>) -> Seq<char> {
    match first_skey(split_on(cookie, ';')) {
        Some(s) => if s.len() > 0 && bkn_value(s) > 0 {
            decimal(bkn_value(s))
        } else {
            csrf_code
        },
        None => csrf_code,
    }
}

/// The session is usable: a cookie with both ids, and a csrf code.
pub open spec fn session_ready_of(cookie: Seq<char>, csrf_code: Seq<char>) -> bool {
    &&& !is_blank(cookie)
    &&& cookie_ids(cookie).0.len() > 0
    &&& cookie_ids(cookie).1.len() > 0
    &&& !is_blank(csrf_code)
}

/// The age of a session fetched at `fetched` when the clock reads `now`.
pub open spec fn session_age(fetched: i64, now: i64) -> int {
    if fetched <= 0 {
        i64::MAX as int
    } else if now - fetched < 0 {
        0
    } else {
        now - fetched
    }
}

/// The names of the session fields that `apply_login` kept because the new
/// value was blank and the old one was not.
pub open spec fn kept_fields(
    old_cookie: Seq<char>,
    old_csrf: Seq<char>,
    cookie: Seq<char>,
    csrf_code: Seq<char>,
) -> Seq<Seq<char>> {
    (if is_blank(cookie) && !is_blank(old_cookie) {
        seq!["cookie"@]
    } else {
        Seq::<Seq<char>>::empty()
    }) + (if is_blank(csrf_code) && !is_blank(old_csrf) {
        seq!["csrfCode"@]
    } else {
        Seq::<Seq<char>>::empty()
    })
}

/// `strip_uin_affix` on a character vector.
fn strip_uin_chars(v: &[char]) -> (r: Vec<char>)
    ensures
        r@ == strip_uin_affix(v@),
{
    let mut a: usize = 0;
    assert(v@.skip(0) == v@);
    while a < v.len() && (v[a] == 'o' || v[a] == 'O')
        invariant
            a <= v@.len(),
            strip_uin_affix(v@) == strip_uin_affix(v@.skip(a as int)),
        decreases v.len() - a,
    {
        assert(v@.skip(a as int).drop_first() == v@.skip(a + 1));
        a = a + 1;
    }
    assert(v@.skip(a as int) == v@.subrange(a as int, v@.len() as int));
    vec_range(v, a, v.len())
}

/// `strip_owner_affix` on a character vector.
fn strip_owner_chars(v: &[char]) -> (r: Vec<char>)
    ensures
        r@ == strip_owner_affix(v@),
{
    let a: usize = if v.len() > 0 && (v[0] == 'O' || v[0] == 'o') {
        1
    } else {
        0
    };
    let b: usize = if v.len() > a && (v[v.len() - 1] == 'G' || v[v.len() - 1] == 'g') {
        v.len() - 1
    } else {
        v.len()
    };
    let r = vec_range(v, a, b);
    proof {
        let x = if v@.len() > 0 && (v@[0] == 'O' || v@[0] == 'o') {
            v@.drop_first()
        } else {
            v@
        };
        assert(x == v@.subrange(a as int, v@.len() as int));
        if x.len() > 0 {
            assert(x.last() == v@[v@.len() - 1]);
            assert(x.drop_last() == v@.subrange(a as int, v@.len() - 1));
        }
    }
    r
}

/// The current Unix time in seconds, 0 when the clock is before the epoch
/// (`SystemTime::now()` against `UNIX_EPOCH`). The contract claims only that
/// it is not negative: the error case gives 0, and the whole seconds of a
/// `SystemTime` after the epoch fit `i64` on every platform std supports
/// (its seconds are an `i64` or a count of 100 ns ticks in a `u64`).
#[verifier::external_body]
pub fn now_secs() -> (r: i64)
    ensures
        r >= 0,
{
    std::time::SystemTime::now().duration_since(std::time::UNIX_EPOCH).map(
        |d| d.as_secs() as i64,
    ).unwrap_or(0)
}

/// A session value after a login: the new one, unless it is blank.
pub open spec fn login_value(old: Seq<char>, new: Seq<char>) -> Seq<char> {
    if is_blank(new) {
        old
    } else {
        new
    }
}

/// The configuration that is saved: the session of `disk`, every other
/// field of `incoming`.
pub open spec fn merged(disk: Config, incoming: Config) -> Config {
    Config {
        cookie: disk.cookie,
        csrf_code: disk.csrf_code,
        session_fetched_at: disk.session_fetched_at,
        ..incoming
    }
}

/// Every field but the session (cookie, csrf code, fetch time) is equal.
pub open spec fn same_user_fields(a: Config, b: Config) -> bool {
    &&& a.region == b.region
    &&& a.region_id == b.region_id
    &&& a.instance_id == b.instance_id
    &&& a.session_refresh_minutes == b.session_refresh_minutes
    &&& a.session_refresh_backoff_minutes == b.session_refresh_backoff_minutes
    &&& a.session_refresh_max_fails == b.session_refresh_max_fails
    &&& a.session_auto_refresh == b.session_auto_refresh
    &&& a.session_auto_quick_login == b.session_auto_quick_login
    &&& a.enabled_sources == b.enabled_sources
    &&& a.quick_range == b.quick_range
    &&& a.use_custom == b.use_custom
    &&& a.custom_start == b.custom_start
    &&& a.custom_end == b.custom_end
    &&& a.selected_apps == b.selected_apps
    &&& a.selected_metrics == b.selected_metrics
    &&& a.metric_cache == b.metric_cache
    &&& a.selected_db_instances == b.selected_db_instances
    &&& a.scenarios == b.scenarios
    &&& a.active_scenario == b.active_scenario
    &&& a.container_cluster == b.container_cluster
    &&& a.container_namespace == b.container_namespace
    &&& a.selected_deployments == b.selected_deployments
}

impl Clone for Config {
    fn clone(&self) -> (r: Self)
        ensures
            self.same_as(r),
    {
        let r = Config {
            region: self.region.clone(),
            region_id: self.region_id,
            instance_id: self.instance_id.clone(),
            cookie: self.cookie.clone(),
            csrf_code: self.csrf_code.clone(),
            session_fetched_at: self.session_fetched_at,
            session_refresh_minutes: self.session_refresh_minutes,
            session_refresh_backoff_minutes: self.session_refresh_backoff_minutes,
            session_refresh_max_fails: self.session_refresh_max_fails,
            session_auto_refresh: self.session_auto_refresh,
            session_auto_quick_login: self.session_auto_quick_login,
            enabled_sources: self.enabled_sources.clone(),
            quick_range: self.quick_range.clone(),
            use_custom: self.use_custom,
            custom_start: self.custom_start.clone(),
            custom_end: self.custom_end.clone(),
            selected_apps: self.selected_apps.clone(),
            selected_metrics: self.selected_metrics.clone(),
            metric_cache: self.metric_cache.clone(),
            selected_db_instances: self.selected_db_instances.clone(),
            scenarios: self.scenarios.clone(),
            active_scenario: self.active_scenario.clone(),
            container_cluster: self.container_cluster.clone(),
            container_namespace: self.container_namespace.clone(),
            selected_deployments: self.selected_deployments.clone(),
        };
        assert(r.enabled_sources@ =~= self.enabled_sources@);
        assert(r.selected_apps@ =~= self.selected_apps@);
        assert(r.selected_metrics@ =~= self.selected_metrics@);
        assert(r.metric_cache@ =~= self.metric_cache@);
        assert(r.selected_deployments@ =~= self.selected_deployments@);
        assert forall|i: int| 0 <= i < self.scenarios@.len() implies (#[trigger] self.scenarios@[i]).same_as(r.scenarios@[i]) by {
            assert(cloned(self.scenarios@[i], r.scenarios@[i]));
        }
        r
    }
}

impl Config {
    /// `other` holds the same data as `self` (maps compared by their contents).
    pub open spec fn same_as(self, other: Config) -> bool {
        &&& self.region == other.region
        &&& self.region_id == other.region_id
        &&& self.instance_id == other.instance_id
        &&& self.cookie == other.cookie
        &&& self.csrf_code == other.csrf_code
        &&& self.session_fetched_at == other.session_fetched_at
        &&& self.session_refresh_minutes == other.session_refresh_minutes
        &&& self.session_refresh_backoff_minutes == other.session_refresh_backoff_minutes
        &&& self.session_refresh_max_fails == other.session_refresh_max_fails
        &&& self.session_auto_refresh == other.session_auto_refresh
        &&& self.session_auto_quick_login == other.session_auto_quick_login
        &&& self.enabled_sources@ == other.enabled_sources@
        &&& self.quick_range == other.quick_range
        &&& self.use_custom == other.use_custom
        &&& self.custom_start == other.custom_start
        &&& self.custom_end == other.custom_end
        &&& self.selected_apps@ == other.selected_apps@
        &&& self.selected_metrics@ == other.selected_metrics@
        &&& self.metric_cache@ == other.metric_cache@
        &&& self.selected_db_instances@ == other.selected_db_instances@
        &&& self.scenarios@.len() == other.scenarios@.len()
        &&& forall|i: int|
            0 <= i < self.scenarios@.len() ==> (#[trigger] self.scenarios@[i]).same_as(
                other.scenarios@[i],
            )
        &&& self.active_scenario == other.active_scenario
        &&& self.container_cluster == other.container_cluster
        &&& self.container_namespace == other.container_namespace
        &&& self.selected_deployments@ == other.selected_deployments@
    }

    /// The values of a first start.
    pub open spec fn is_default(self) -> bool {
        &&& self.region@ == "ap-shanghai"@
        &&& self.region_id == 4
        &&& self.instance_id@.len() == 0
        &&& self.cookie@.len() == 0
        &&& self.csrf_code@.len() == 0
        &&& self.session_fetched_at == 0
        &&& self.session_refresh_minutes == 10
        &&& self.session_refresh_backoff_minutes == 2
        &&& self.session_refresh_max_fails == 3
        &&& self.session_auto_refresh
        &&& self.session_auto_quick_login
        &&& self.enabled_sources@.len() == 1
        &&& self.enabled_sources@[0]@ == "container"@
        &&& self.quick_range@ == "1h"@
        &&& !self.use_custom
        &&& self.custom_start@.len() == 0
        &&& self.custom_end@.len() == 0
        &&& self.selected_apps@.len() == 0
        &&& self.selected_metrics@.len() == 0
        &&& self.metric_cache@.len() == 0
        &&& self.selected_db_instances@ == Map::<String, Vec<String>>::empty()
        &&& self.scenarios@.len() == 0
        &&& self.active_scenario@.len() == 0
        &&& self.container_cluster@.len() == 0
        &&& self.container_namespace@.len() == 0
        &&& self.selected_deployments@.len() == 0
    }

    /// The configuration of a first start.
    pub fn with_defaults() -> (c: Config)
        ensures
            c.is_default(),
    {
        Config {
            region: copy_str("ap-shanghai"),
            region_id: 4,
            instance_id: String::new(),
            cookie: String::new(),
            csrf_code: String::new(),
            session_fetched_at: 0,
            session_refresh_minutes: default_refresh_minutes(),
            session_refresh_backoff_minutes: default_backoff_minutes(),
            session_refresh_max_fails: default_max_fails(),
            session_auto_refresh: true,
            session_auto_quick_login: true,
            enabled_sources: default_sources(),
            quick_range: copy_str("1h"),
            use_custom: false,
            custom_start: String::new(),
            custom_end: String::new(),
            selected_apps: Vec::new(),
            selected_metrics: Vec::new(),
            metric_cache: Vec::new(),
            selected_db_instances: BTreeMap::new(),
            scenarios: Vec::new(),
            active_scenario: String::new(),
            container_cluster: String::new(),
            container_namespace: String::new(),
            selected_deployments: Vec::new(),
        }
    }

    /// The configuration to use once `config.json` has been read: the
    /// defaults when it could not be read or parsed, otherwise what was read
    /// with a missing region id (0) replaced by 4.
    pub fn settle_loaded(parsed: Option<Config>) -> (c: Config)
        ensures
            match parsed {
                None => c.is_default(),
                Some(p) => c == (Config {
                    region_id: if p.region_id == 0 {
                        4
                    } else {
                        p.region_id
                    },
                    ..p
                }),
            },
    {
        match parsed {
            None => Config::with_defaults(),
            Some(mut p) => {
                if p.region_id == 0 {
                    p.region_id = 4;
                }
                p
            },
        }
    }

    /// Updates the session from a login (cookie + csrf code + fetch time).
    /// A blank value never overwrites a stored one: a half-initialised cookie
    /// would otherwise wipe a working session. Returns the names of the fields
    /// that kept their old value. The fetch time is set to the clock's reading
    /// (`now_secs`), of which only that it is not negative is stated;
    /// `apply_login_at` takes it as an argument.
    pub fn apply_login(&mut self, cookie: String, csrf_code: String) -> (kept: Vec<&'static str>)
        ensures
            final(self).cookie@ == login_value(old(self).cookie@, cookie@),
            final(self).csrf_code@ == login_value(old(self).csrf_code@, csrf_code@),
            kept@.map_values(|s: &str| s@) == kept_fields(
                old(self).cookie@,
                old(self).csrf_code@,
                cookie@,
                csrf_code@,
            ),
            same_user_fields(*final(self), *old(self)),
            final(self).session_fetched_at >= 0,
    {
        let now = now_secs();
        self.apply_login_at(cookie, csrf_code, now)
    }

    /// `apply_login` with the clock reading `now`.
    pub fn apply_login_at(&mut self, cookie: String, csrf_code: String, now: i64) -> (kept: Vec<
        &'static str,
    >)
        ensures
            final(self).cookie@ == login_value(old(self).cookie@, cookie@),
            final(self).csrf_code@ == login_value(old(self).csrf_code@, csrf_code@),
            final(self).session_fetched_at == now,
            kept@.map_values(|s: &str| s@) == kept_fields(
                old(self).cookie@,
                old(self).csrf_code@,
                cookie@,
                csrf_code@,
            ),
            same_user_fields(*final(self), *old(self)),
    {
        let mut kept: Vec<&'static str> = Vec::new();
        let ghost oc = self.cookie@;
        let ghost os = self.csrf_code@;
        let new_cookie_blank = blank(cookie.as_str());
        let new_csrf_blank = blank(csrf_code.as_str());
        if !new_cookie_blank {
            self.cookie = cookie;
        } else if !blank(self.cookie.as_str()) {
            kept.push("cookie");
        }
        let ghost k1 = kept@;
        if !new_csrf_blank {
            self.csrf_code = csrf_code;
        } else if !blank(self.csrf_code.as_str()) {
            kept.push("csrfCode");
        }
        self.session_fetched_at = now;
        proof {
            reveal_strlit("cookie");
            reveal_strlit("csrfCode");
            assert(kept@.map_values(|s: &str| s@) =~= kept_fields(oc, os, cookie@, csrf_code@));
        }
        kept
    }

    /// The configuration to save: the user fields come from `incoming` (the
    /// front end's latest), the session fields always from `self` (disk).
    pub fn merge_user_config(&self, incoming: Config) -> (r: Config)
        ensures
            r == merged(*self, incoming),
    {
        Config {
            cookie: self.cookie.clone(),
            csrf_code: self.csrf_code.clone(),
            session_fetched_at: self.session_fetched_at,
            ..incoming
        }
    }

    /// Whether the session is usable: the cookie yields both ids and there is
    /// a csrf code.
    pub fn session_ready(&self) -> (b: bool)
        ensures
            b == session_ready_of(self.cookie@, self.csrf_code@),
    {
        let (uin, owner) = self.extract_ids_from_cookie();
        !blank(self.cookie.as_str()) && !uin.as_str().is_empty() && !owner.as_str().is_empty() && !blank(
            self.csrf_code.as_str(),
        )
    }

    /// The session's age in seconds; `i64::MAX` when unknown ("refresh long ago").
    pub fn session_age_secs(&self) -> (r: i64)
        ensures
            exists|now: i64| now >= 0 && r == session_age(self.session_fetched_at, now),
            self.session_fetched_at <= 0 ==> r == i64::MAX,
            r >= 0,
    {
        let now = now_secs();
        self.session_age_at(now)
    }

    /// `session_age_secs` with the clock reading `now`.
    pub fn session_age_at(&self, now: i64) -> (r: i64)
        ensures
            r == session_age(self.session_fetched_at, now),
    {
        if self.session_fetched_at <= 0 {
            i64::MAX
        } else {
            if now < self.session_fetched_at {
                0
            } else {
                now - self.session_fetched_at
            }
        }
    }

    /// `(uin, ownerUin)` read from the cookie, without the console's affixes.
    pub fn extract_ids_from_cookie(&self) -> (r: (String, String))
        ensures
            (r.0@, r.1@) == cookie_ids(self.cookie@),
    {
        let pieces = split_str(self.cookie.as_str(), ';');
        let mut uin: Vec<char> = Vec::new();
        let mut owner: Vec<char> = Vec::new();
        let mut i: usize = 0;
        while i < pieces.len()
            invariant
                i <= pieces@.len(),
                pieces@.len() == split_on(self.cookie@, ';').len(),
                forall|k: int|
                    0 <= k < pieces@.len() ==> (#[trigger] pieces@[k])@ == split_on(
                        self.cookie@,
                        ';',
                    )[k],
                (uin@, owner@) == ids_of_pieces(split_on(self.cookie@, ';').take(i as int)),
            decreases pieces.len() - i,
        {
            let ghost all = split_on(self.cookie@, ';');
            assert(all.take(i + 1).drop_last() == all.take(i as int));
            assert(all.take(i + 1).last() == pieces@[i as int]@);
            let p = trim_chars(&pieces[i]);
            match char_position(&p, '=') {
                None => {},
                Some(eq) => {
                    let n = p.len();
                    let k = vec_range(&p, 0, eq);
                    let rest = vec_range(&p, eq + 1, n);
                    assert(k@ == p@.take(eq as int));
                    assert(rest@ == p@.skip(eq + 1));
                    let vt = trim_chars(&rest);
                    if chars_eq_str(&k, "uin") {
                        uin = strip_uin_chars(&vt);
                    } else if chars_eq_str(&k, "ownerUin") {
                        owner = strip_owner_chars(&vt);
                    }
                },
            }
            i = i + 1;
        }
        assert(split_on(self.cookie@, ';').take(pieces@.len() as int) == split_on(self.cookie@, ';'));
        (string_of(&uin), string_of(&owner))
    }

    /// The csrf code of the old gateway (`/cgi/capi`): `bkn(skey)` computed
    /// from the cookie each time, falling back to the stored csrf code.
    pub fn capi_csrf(&self) -> (r: String)
        ensures
            r@ == capi_csrf_of(self.cookie@, self.csrf_code@),
    {
        let pieces = split_str(self.cookie.as_str(), ';');
        let prefix = chars_of("skey=");
        let mut i: usize = 0;
        assert(split_on(self.cookie@, ';').skip(0) == split_on(self.cookie@, ';'));
        while i < pieces.len()
            invariant
                i <= pieces@.len(),
                prefix@ == "skey="@,
                pieces@.len() == split_on(self.cookie@, ';').len(),
                forall|k: int|
                    0 <= k < pieces@.len() ==> (#[trigger] pieces@[k])@ == split_on(
                        self.cookie@,
                        ';',
                    )[k],
                first_skey(split_on(self.cookie@, ';')) == first_skey(
                    split_on(self.cookie@, ';').skip(i as int),
                ),
            decreases pieces.len() - i,
        {
            let ghost rest = split_on(self.cookie@, ';').skip(i as int);
            assert(rest[0] == pieces@[i as int]@);
            assert(rest.drop_first() == split_on(self.cookie@, ';').skip(i + 1));
            let p = trim_chars(&pieces[i]);
            proof {
                reveal_strlit("skey=");
            }
            if has_prefix(&p, &prefix) {
                let s = string_of_range(&p, 5, p.len());
                assert(s@ == p@.skip(5));
                if !s.as_str().is_empty() {
                    let h = bkn(s.as_str());
                    if h > 0 {
                        return i64_text(h);
                    }
                }
                return self.csrf_code.clone();
            }
            i = i + 1;
        }
        self.csrf_code.clone()
    }
}


// ---------------------------------------------------------------------------
// Laws of the stored session
// ---------------------------------------------------------------------------

/// Saving never touches the session on disk and takes every other field from
/// the front end; saving the result again changes nothing.
pub proof fn law_merge_keeps_disk_session(disk: Config, incoming: Config)
    ensures
        merged(disk, incoming).cookie == disk.cookie,
        merged(disk, incoming).csrf_code == disk.csrf_code,
        merged(disk, incoming).session_fetched_at == disk.session_fetched_at,
        same_user_fields(merged(disk, incoming), incoming),
        merged(disk, merged(disk, incoming)) == merged(disk, incoming),
{
}

/// A login never blanks a stored session value, and a value that is not
/// blank always replaces the stored one.
pub proof fn law_login_never_blanks_session(old: Seq<char>, new: Seq<char>)
    ensures
        !is_blank(old) ==> !is_blank(login_value(old, new)),
        !is_blank(new) ==> login_value(old, new) == new,
        is_blank(new) ==> login_value(old, new) == old,
{
}

/// A ready session has a cookie that yields both ids and a csrf code.
pub proof fn law_ready_session_has_ids(cookie: Seq<char>, csrf_code: Seq<char>)
    requires
        session_ready_of(cookie, csrf_code),
    ensures
        cookie_ids(cookie).0.len() > 0,
        cookie_ids(cookie).1.len() > 0,
        !is_blank(csrf_code),
{
}

} // verus!
