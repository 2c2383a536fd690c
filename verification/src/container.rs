//! The container (TKE) source: clusters and namespaces from the TKE API,
//! Kubernetes objects through `ForwardPlatformRequestV3`, and the request
//! shape of the dashboard utilisation query.
use crate::json::{
    at, field, int_of, items_of, items_or_empty, json_str, member_keys, member_value, members_of, push_int,
    push_member, push_text, push_value, str_of, str_or_empty, text_array, Json,
};
use crate::login::str_field;
use crate::text::{chars_of, copy_str, has_prefix, push_str, starts_with};
use vstd::prelude::*;

verus! {

/// A cluster: id and name.
pub struct ClusterInfo {
    pub id: String,
    pub name: String,
}

/// A deployment as the front end lists it.
#[derive(Clone)]
pub struct DeploymentInfo {
    pub name: String,
    pub namespace: String,
    /// Desired replicas.
    pub replicas: i64,
    /// Ready replicas.
    pub ready: i64,
    /// The container env `SW_AGENT_NAME` (the APM application, matched exactly).
    pub apm_name: String,
    /// One pod's container limits as written (such as "2" / "6Gi").
    pub cpu_limit: String,
    pub mem_limit: String,
}

/// A deployment as plain values.
pub type DeploymentView = (Seq<char>, Seq<char>, i64, i64, Seq<char>, Seq<char>, Seq<char>);

impl DeploymentInfo {
    pub open spec fn view(self) -> DeploymentView {
        (
            self.name@,
            self.namespace@,
            self.replicas,
            self.ready,
            self.apm_name@,
            self.cpu_limit@,
            self.mem_limit@,
        )
    }
}

/// The API versions tried in turn for deployments.
pub fn api_version_chain() -> (r: [&'static str; 2])
    ensures
        r@[0]@ == "/apis/apps/v1"@,
        r@[1]@ == "/apis/apps/v1beta2"@,
{
    ["/apis/apps/v1", "/apis/apps/v1beta2"]
}

/// The sampling period the console uses for a window of `end - start`
/// seconds: 60 up to an hour, 300 up to six hours, 3600 up to a day, then
/// 86400. A reversed window counts as empty.
pub open spec fn period_for(start: i64, end: i64) -> i64 {
    let secs = if end - start > 0 {
        end - start
    } else {
        0
    };
    if secs <= 3600 {
        60
    } else if secs <= 6 * 3600 {
        300
    } else if secs <= 24 * 3600 {
        3600
    } else {
        86400
    }
}

/// The sampling period for the dashboard query.
pub fn pick_period(start: i64, end: i64) -> (p: i64)
    ensures
        p == period_for(start, end),
{
    let secs: i128 = if (end as i128) > (start as i128) {
        (end as i128) - (start as i128)
    } else {
        0
    };
    if secs <= 3600 {
        60
    } else if secs <= 6 * 3600 {
        300
    } else if secs <= 24 * 3600 {
        3600
    } else {
        86400
    }
}

/// A longer window never gets a finer period.
pub proof fn law_period_monotone(s1: i64, e1: i64, s2: i64, e2: i64)
    requires
        e1 - s1 <= e2 - s2,
    ensures
        period_for(s1, e1) <= period_for(s2, e2),
{
}

// ---------------------------------------------------------------------------
// Dimensions of the dashboard query
// ---------------------------------------------------------------------------

/// One dimension item `{"Key": key, "Operator": op, "Value": [values...]}`.
pub open spec fn is_dim(j: Json, key: Seq<char>, values: Seq<Seq<char>>, op: Seq<char>) -> bool {
    &&& members_of(j) is Some
    &&& members_of(j).unwrap().len() == 3
    &&& str_of(at(j, "Key"@)) == Some(key)
    &&& str_of(at(j, "Operator"@)) == Some(op)
    &&& items_of(at(j, "Value"@)) is Some
    &&& items_of(at(j, "Value"@)).unwrap().len() == values.len()
    &&& forall|i: int|
        0 <= i < values.len() ==> str_of(#[trigger] items_of(at(j, "Value"@)).unwrap()[i])
            == Some(values[i])
}

/// The dimensions the console sends for the container utilisation: region
/// and cluster always, then pod names, namespace and workload when given.
pub open spec fn dims_expected(
    region: Seq<char>,
    cluster: Seq<char>,
    namespace: Seq<char>,
    workload: Seq<char>,
    pods: Seq<Seq<char>>,
) -> Seq<(Seq<char>, Seq<Seq<char>>, Seq<char>)> {
    seq![("region"@, seq![region], "eq"@), ("tke_cluster_instance_id"@, seq![cluster], "in"@)]
        + (if pods.len() > 0 {
        seq![("pod_name"@, pods, "in"@)]
    } else {
        Seq::empty()
    }) + (if namespace.len() > 0 {
        seq![("namespace"@, seq![namespace], "eq"@)]
    } else {
        Seq::empty()
    }) + (if workload.len() > 0 {
        seq![("workload_name"@, seq![workload], "eq"@)]
    } else {
        Seq::empty()
    })
}

/// `j` is the array of `expected` dimensions, in that order.
pub open spec fn is_dims(j: Json, expected: Seq<(Seq<char>, Seq<Seq<char>>, Seq<char>)>) -> bool {
    &&& items_of(j) is Some
    &&& items_of(j).unwrap().len() == expected.len()
    &&& forall|i: int|
        0 <= i < expected.len() ==> is_dim(
            #[trigger] items_of(j).unwrap()[i],
            expected[i].0,
            expected[i].1,
            expected[i].2,
        )
}

fn dim(key: &str, values: &[String], op: &str) -> (j: Json)
    ensures
        is_dim(j, key@, values@.map_values(|s: String| s@), op@),
{
    let mut vs: Vec<Json> = Vec::new();
    let mut i: usize = 0;
    while i < values.len()
        invariant
            i <= values@.len(),
            vs@.len() == i,
            forall|k: int| 0 <= k < i ==> str_of(#[trigger] vs@[k]) == Some(values@[k]@),
        decreases values.len() - i,
    {
        vs.push(json_str(values[i].as_str()));
        i = i + 1;
    }
    proof {
        reveal_strlit("Key");
        reveal_strlit("Operator");
        reveal_strlit("Value");
        assert("Key"@.len() == 3 && "Operator"@.len() == 8 && "Value"@.len() == 5);
    }
    let mut m: Vec<(String, Json)> = Vec::new();
    let ghost gvs = vs;
    push_member(&mut m, "Key", json_str(key));
    push_member(&mut m, "Operator", json_str(op));
    push_member(&mut m, "Value", Json::Array(vs));
    let j = Json::Object(m);
    assert(items_of(at(j, "Value"@)) == Some(gvs@));
    j
}

fn one(s: &str) -> (v: Vec<String>)
    ensures
        v@.map_values(|x: String| x@) == seq![s@],
{
    let mut v: Vec<String> = Vec::new();
    v.push(copy_str(s));
    assert(v@.map_values(|x: String| x@) =~= seq![s@]);
    v
}

/// The dimension string of the dashboard query, as JSON. It must match the
/// console's own request word for word (the application prints it).
pub fn dimension_json(
    region: &str,
    cluster_id: &str,
    namespace: &str,
    workload: &str,
    pods: &[String],
) -> (j: Json)
    ensures
        is_dims(
            j,
            dims_expected(region@, cluster_id@, namespace@, workload@, pods@.map_values(|s: String| s@)),
        ),
{
    let ghost expected = dims_expected(
        region@,
        cluster_id@,
        namespace@,
        workload@,
        pods@.map_values(|s: String| s@),
    );
    let mut items: Vec<Json> = Vec::new();
    items.push(dim("region", &one(region), "eq"));
    items.push(dim("tke_cluster_instance_id", &one(cluster_id), "in"));
    let ghost base: Seq<(Seq<char>, Seq<Seq<char>>, Seq<char>)> = seq![("region"@, seq![region@], "eq"@), ("tke_cluster_instance_id"@, seq![cluster_id@], "in"@)];
    let ghost mut built = base;
    assert(forall|i: int| 0 <= i < built.len() ==> is_dim(#[trigger] items@[i], built[i].0, built[i].1, built[i].2));
    if pods.len() > 0 {
        items.push(dim("pod_name", pods, "in"));
        proof {
            built = built.push(("pod_name"@, pods@.map_values(|s: String| s@), "in"@));
        }
    }
    assert(items@.len() == built.len());
    assert(forall|i: int| 0 <= i < built.len() ==> is_dim(#[trigger] items@[i], built[i].0, built[i].1, built[i].2));
    if !namespace.is_empty() {
        items.push(dim("namespace", &one(namespace), "eq"));
        proof {
            built = built.push(("namespace"@, seq![namespace@], "eq"@));
        }
    }
    assert(items@.len() == built.len());
    assert(forall|i: int| 0 <= i < built.len() ==> is_dim(#[trigger] items@[i], built[i].0, built[i].1, built[i].2));
    if !workload.is_empty() {
        items.push(dim("workload_name", &one(workload), "eq"));
        proof {
            built = built.push(("workload_name"@, seq![workload@], "eq"@));
        }
    }
    assert(built =~= expected);
    Json::Array(items)
}

// ---------------------------------------------------------------------------
// Reading the TKE answers
// ---------------------------------------------------------------------------

/// `v[key]` as an array, empty when it is not one.
pub open spec fn array_at(v: Json, key: Seq<char>) -> Seq<Json> {
    match items_of(at(v, key)) {
        Some(a) => a,
        None => Seq::<Json>::empty(),
    }
}

fn array_field<'a>(v: &'a Json, key: &str, empty: &'a Vec<Json>) -> (r: &'a Vec<Json>)
    requires
        empty@.len() == 0,
    ensures
        r@ == array_at(*v, key@),
{
    match v.get(key) {
        Some(x) => match x.as_array() {
            Some(a) => a,
            None => empty,
        },
        None => empty,
    }
}

/// The clusters of a `DescribeClusters` answer: those with an id.
pub open spec fn clusters_from(items: Seq<Json>) -> Seq<(Seq<char>, Seq<char>)>
    decreases items.len(),
{
    if items.len() == 0 {
        Seq::empty()
    } else {
        let pre = clusters_from(items.drop_last());
        let c = items.last();
        let id = str_or_empty(at(c, "ClusterId"@));
        if id.len() == 0 {
            pre
        } else {
            pre.push((id, str_or_empty(at(c, "ClusterName"@))))
        }
    }
}

/// Reads the clusters of a `DescribeClusters` answer.
pub fn clusters_of(resp: &Json) -> (out: Vec<ClusterInfo>)
    ensures
        out@.map_values(|c: ClusterInfo| (c.id@, c.name@)) == clusters_from(array_at(*resp, "Clusters"@)),
{
    let empty: Vec<Json> = Vec::new();
    let list = array_field(resp, "Clusters", &empty);
    let mut out: Vec<ClusterInfo> = Vec::new();
    let mut i: usize = 0;
    while i < list.len()
        invariant
            i <= list@.len(),
            out@.map_values(|c: ClusterInfo| (c.id@, c.name@)) == clusters_from(list@.take(i as int)),
        decreases list.len() - i,
    {
        assert(list@.take(i + 1).drop_last() == list@.take(i as int));
        let c = &list[i];
        let id = str_field(c, "ClusterId");
        if !id.as_str().is_empty() {
            let name = str_field(c, "ClusterName");
            let ghost before = out@;
            out.push(ClusterInfo { id, name });
            assert(out@.map_values(|c: ClusterInfo| (c.id@, c.name@)) =~= before.map_values(|c: ClusterInfo| (c.id@, c.name@)).push((id@, name@)));
        }
        i = i + 1;
    }
    assert(list@.take(list@.len() as int) == list@);
    out
}

/// The namespace names of a `DescribeClusterNamespaces` answer (non-empty ones).
pub open spec fn namespaces_from(items: Seq<Json>) -> Seq<Seq<char>>
    decreases items.len(),
{
    if items.len() == 0 {
        Seq::empty()
    } else {
        let pre = namespaces_from(items.drop_last());
        match str_of(at(items.last(), "Name"@)) {
            Some(n) => if n.len() > 0 {
                pre.push(n)
            } else {
                pre
            },
            None => pre,
        }
    }
}

/// Reads the namespaces of a `DescribeClusterNamespaces` answer.
pub fn namespaces_of(resp: &Json) -> (out: Vec<String>)
    ensures
        out@.map_values(|s: String| s@) == namespaces_from(array_at(*resp, "Namespaces"@)),
{
    let empty: Vec<Json> = Vec::new();
    let list = array_field(resp, "Namespaces", &empty);
    let mut out: Vec<String> = Vec::new();
    let mut i: usize = 0;
    while i < list.len()
        invariant
            i <= list@.len(),
            out@.map_values(|s: String| s@) == namespaces_from(list@.take(i as int)),
        decreases list.len() - i,
    {
        assert(list@.take(i + 1).drop_last() == list@.take(i as int));
        let ghost before = out@;
        match list[i].str_at("Name") {
            Some(n) => {
                if !n.is_empty() {
                    out.push(copy_str(n));
                    assert(out@.map_values(|s: String| s@) =~= before.map_values(|s: String| s@).push(n@));
                }
            },
            None => {},
        }
        i = i + 1;
    }
    assert(list@.take(list@.len() as int) == list@);
    out
}

/// What the platform forwarder answered: the response body text, or the error
/// (`Code: Message` of an `Error` object, or "empty").
pub open spec fn forwarded_body(resp: Json) -> Result<Seq<char>, Seq<char>> {
    let body = str_or_empty(at(resp, "ResponseBody"@));
    if body.len() == 0 {
        let err = at(resp, "Error"@);
        if err is Object {
            Err(str_or_empty(at(err, "Code"@)) + ": "@ + str_or_empty(at(err, "Message"@)))
        } else {
            Err("平台转发返回为空"@)
        }
    } else {
        Ok(body)
    }
}

/// Reads the body of a `ForwardPlatformRequestV3` answer (the application
/// parses it as JSON).
pub fn k8s_body(resp: &Json) -> (r: Result<String, String>)
    ensures
        match r {
            Ok(b) => forwarded_body(*resp) == Ok::<Seq<char>, Seq<char>>(b@),
            Err(e) => forwarded_body(*resp) == Err::<Seq<char>, Seq<char>>(e@),
        },
{
    let body = str_field(resp, "ResponseBody");
    if body.as_str().is_empty() {
        match resp.get("Error") {
            Some(err) => {
                if let Json::Object(_) = err {
                    let mut e = str_field(err, "Code");
                    push_str(&mut e, ": ");
                    push_str(&mut e, str_field(err, "Message").as_str());
                    return Err(e);
                }
            },
            None => {},
        }
        return Err(copy_str("平台转发返回为空"));
    }
    Ok(body)
}

/// The payload of a Kubernetes GET through the platform forwarder.
pub open spec fn is_k8s_payload(p: Json, cluster: Seq<char>, path: Seq<char>) -> bool {
    &&& members_of(p) is Some
    &&& members_of(p).unwrap().len() == 5
    &&& str_of(at(p, "Version"@)) == Some("2018-05-25"@)
    &&& str_of(at(p, "Language"@)) == Some("zh-CN"@)
    &&& str_of(at(p, "Method"@)) == Some("GET"@)
    &&& str_of(at(p, "Path"@)) == Some(path)
    &&& str_of(at(p, "ClusterName"@)) == Some(cluster)
}

/// `{"Version":"2018-05-25","Language":"zh-CN","Method":"GET","Path":path,"ClusterName":cluster}`.
pub fn k8s_payload(cluster_id: &str, path: &str) -> (p: Json)
    ensures
        is_k8s_payload(p, cluster_id@, path@),
{
    proof {
        reveal_strlit("Version");
        reveal_strlit("Language");
        reveal_strlit("Method");
        reveal_strlit("Path");
        reveal_strlit("ClusterName");
        assert("Version"@.len() == 7 && "Language"@.len() == 8 && "Method"@.len() == 6
            && "Path"@.len() == 4 && "ClusterName"@.len() == 11);
    }
    let mut m: Vec<(String, Json)> = Vec::new();
    let a = json_str("2018-05-25");
    let ghost ga = a;
    push_member(&mut m, "Version", a);
    let b = json_str("zh-CN");
    let ghost gb = b;
    push_member(&mut m, "Language", b);
    let c = json_str("GET");
    let ghost gc = c;
    push_member(&mut m, "Method", c);
    let d = json_str(path);
    let ghost gd = d;
    push_member(&mut m, "Path", d);
    let e = json_str(cluster_id);
    let ghost ge = e;
    push_member(&mut m, "ClusterName", e);
    let p = Json::Object(m);
    assert(field(p, "Version"@) == Some(ga));
    assert(field(p, "Language"@) == Some(gb));
    assert(field(p, "Method"@) == Some(gc));
    assert(field(p, "Path"@) == Some(gd));
    assert(field(p, "ClusterName"@) == Some(ge));
    p
}

/// `s` without its leading `/` characters.
pub open spec fn trim_slashes(s: Seq<char>) -> Seq<char>
    decreases s.len(),
{
    if s.len() > 0 && s[0] == '/' {
        trim_slashes(s.drop_first())
    } else {
        s
    }
}

fn push_trim_slashes(out: &mut String, s: &str)
    ensures
        final(out)@ == old(out)@ + trim_slashes(s@),
{
    let v = chars_of(s);
    let mut a: usize = 0;
    assert(v@.skip(0) == v@);
    while a < v.len() && v[a] == '/'
        invariant
            a <= v@.len(),
            v@ == s@,
            trim_slashes(v@) == trim_slashes(v@.skip(a as int)),
        decreases v.len() - a,
    {
        assert(v@.skip(a as int).drop_first() == v@.skip(a + 1));
        a = a + 1;
    }
    let rest = crate::text::string_of_range(&v, a, v.len());
    assert(rest@ == v@.skip(a as int));
    push_str(out, rest.as_str());
}

/// The deployments path for API `base` in `namespace`.
pub open spec fn deployments_path_of(base: Seq<char>, namespace: Seq<char>) -> Seq<char> {
    "/"@ + trim_slashes(base) + "/namespaces/"@ + namespace + "/deployments?limit=500"@
}

/// `/{base}/namespaces/{ns}/deployments?limit=500`.
pub fn deployments_path(base: &str, namespace: &str) -> (p: String)
    ensures
        p@ == deployments_path_of(base@, namespace@),
{
    let mut p = copy_str("/");
    push_trim_slashes(&mut p, base);
    push_str(&mut p, "/namespaces/");
    push_str(&mut p, namespace);
    push_str(&mut p, "/deployments?limit=500");
    p
}

/// The pods path of one deployment.
pub open spec fn pods_path_of(base: Seq<char>, namespace: Seq<char>, deployment: Seq<char>) -> Seq<char> {
    "/"@ + trim_slashes(base) + "/namespaces/"@ + namespace + "/deployments/"@ + deployment
        + "/pods?limit=500"@
}

/// `/{base}/namespaces/{ns}/deployments/{name}/pods?limit=500`.
pub fn pods_path(base: &str, namespace: &str, deployment: &str) -> (p: String)
    ensures
        p@ == pods_path_of(base@, namespace@, deployment@),
{
    let mut p = copy_str("/");
    push_trim_slashes(&mut p, base);
    push_str(&mut p, "/namespaces/");
    push_str(&mut p, namespace);
    push_str(&mut p, "/deployments/");
    push_str(&mut p, deployment);
    push_str(&mut p, "/pods?limit=500");
    p
}

/// The fallback: all pods of the namespace.
pub open spec fn namespace_pods_path_of(namespace: Seq<char>) -> Seq<char> {
    "/api/v1/namespaces/"@ + namespace + "/pods?limit=1000"@
}

/// `/api/v1/namespaces/{ns}/pods?limit=1000`.
pub fn namespace_pods_path(namespace: &str) -> (p: String)
    ensures
        p@ == namespace_pods_path_of(namespace@),
{
    let mut p = copy_str("/api/v1/namespaces/");
    push_str(&mut p, namespace);
    push_str(&mut p, "/pods?limit=1000");
    p
}

// ---------------------------------------------------------------------------
// Pods
// ---------------------------------------------------------------------------

/// The first condition `{type: "Ready", status: "True"}` exists.
pub open spec fn ready_in(conds: Seq<Json>) -> bool {
    exists|i: int|
        0 <= i < conds.len() && str_of(at(#[trigger] conds[i], "type"@)) == Some("Ready"@) && str_of(
            at(conds[i], "status"@),
        ) == Some("True"@)
}

/// A pod is ready when one of its conditions is `Ready` / `True`.
pub open spec fn pod_ready(p: Json) -> bool {
    match items_of(at(at(p, "status"@), "conditions"@)) {
        Some(cs) => ready_in(cs),
        None => false,
    }
}

fn is_pod_ready(p: &Json) -> (b: bool)
    ensures
        b == pod_ready(*p),
{
    let empty: Vec<Json> = Vec::new();
    let status = match p.get("status") {
        Some(s) => s,
        None => {
            return false;
        },
    };
    let conds = match status.get("conditions") {
        Some(c) => match c.as_array() {
            Some(a) => a,
            None => {
                return false;
            },
        },
        None => {
            return false;
        },
    };
    let _ = empty;
    let mut i: usize = 0;
    while i < conds.len()
        invariant
            i <= conds@.len(),
            items_of(at(at(*p, "status"@), "conditions"@)) == Some(conds@),
            forall|k: int|
                0 <= k < i ==> !(str_of(at(#[trigger] conds@[k], "type"@)) == Some("Ready"@) && str_of(
                    at(conds@[k], "status"@),
                ) == Some("True"@)),
        decreases conds.len() - i,
    {
        let t = conds[i].str_at("type");
        let s = conds[i].str_at("status");
        let ok = match (t, s) {
            (Some(t), Some(s)) => crate::json::str_eq(t, "Ready") && crate::json::str_eq(s, "True"),
            _ => false,
        };
        if ok {
            assert(str_of(at(conds@[i as int], "type"@)) == Some("Ready"@));
            assert(str_of(at(conds@[i as int], "status"@)) == Some("True"@));
            return true;
        }
        i = i + 1;
    }
    false
}

/// Pod names and ready count of a deployment's pod list: every pod counts
/// toward readiness, named pods are listed.
pub open spec fn pods_from(items: Seq<Json>) -> (Seq<Seq<char>>, int)
    decreases items.len(),
{
    if items.len() == 0 {
        (Seq::empty(), 0)
    } else {
        let (names, ready) = pods_from(items.drop_last());
        let p = items.last();
        let names2 = match str_of(at(at(p, "metadata"@), "name"@)) {
            Some(n) => names.push(n),
            None => names,
        };
        (names2, ready + if pod_ready(p) {
            1int
        } else {
            0int
        })
    }
}

/// The pod has a condition whose `type` is `"Ready"` and whose `status` is
/// `"True"`.
pub open spec fn has_ready_condition(p: Json) -> bool {
    let conds = array_at(at(p, "status"@), "conditions"@);
    exists|i: int|
        0 <= i < conds.len() && #[trigger] str_of(at(conds[i], "type"@)) == Some("Ready"@) && str_of(
            at(conds[i], "status"@),
        ) == Some("True"@)
}

/// The ready count of a pod list is the number of its pods that have a
/// `Ready` / `True` condition: a pod whose `Ready` condition is `"False"`
/// (or that has none) does not add to it.
pub proof fn law_ready_count(items: Seq<Json>)
    ensures
        pods_from(items).1 == items.filter(|p: Json| has_ready_condition(p)).len(),
    decreases items.len(),
{
    reveal(Seq::filter);
    if items.len() > 0 {
        law_ready_count(items.drop_last());
        let p = items.last();
        assert(pod_ready(p) == has_ready_condition(p));
    }
}

/// The name of a pod, when its `metadata.name` is a string.
pub open spec fn pod_name(p: Json) -> Option<Seq<char>> {
    match at(at(p, "metadata"@), "name"@) {
        Json::Str(s) => Some(s@),
        _ => None,
    }
}

/// The listed pod names are the names of the pods that have one, in list
/// order.
pub proof fn law_pod_names(items: Seq<Json>)
    ensures
        pods_from(items).0 == items.filter(|p: Json| pod_name(p) is Some).map_values(|p: Json| pod_name(p)->0),
    decreases items.len(),
{
    reveal(Seq::filter);
    if items.len() > 0 {
        law_pod_names(items.drop_last());
        let p = items.last();
        let f = items.drop_last().filter(|p: Json| pod_name(p) is Some);
        if pod_name(p) is Some {
            assert(f.push(p).map_values(|p: Json| pod_name(p)->0) =~= f.map_values(|p: Json| pod_name(p)->0).push(
                pod_name(p)->0,
            ));
        }
    }
}

/// The ready count of the pods picked by name prefix is the number of those
/// pods that have a `Ready` / `True` condition.
pub proof fn law_prefixed_ready_count(items: Seq<Json>, prefix: Seq<char>)
    ensures
        prefixed_pods_from(items, prefix).1 == items.filter(
            |p: Json| starts_with(str_or_empty(at(at(p, "metadata"@), "name"@)), prefix) && has_ready_condition(p),
        ).len(),
    decreases items.len(),
{
    reveal(Seq::filter);
    if items.len() > 0 {
        law_prefixed_ready_count(items.drop_last(), prefix);
        let p = items.last();
        assert(pod_ready(p) == has_ready_condition(p));
    }
}

/// Reads the pod names and ready count of a deployment's pod list.
pub fn pods_of(obj: &Json) -> (r: (Vec<String>, i64))
    requires
        array_at(*obj, "items"@).len() <= i64::MAX,
    ensures
        (r.0@.map_values(|s: String| s@), r.1 as int) == pods_from(array_at(*obj, "items"@)),
        r.1 == array_at(*obj, "items"@).filter(|p: Json| has_ready_condition(p)).len(),
        r.0@.map_values(|s: String| s@) == array_at(*obj, "items"@).filter(|p: Json| pod_name(p) is Some).map_values(
            |p: Json| pod_name(p)->0,
        ),
{
    proof {
        law_ready_count(array_at(*obj, "items"@));
        law_pod_names(array_at(*obj, "items"@));
    }
    let empty: Vec<Json> = Vec::new();
    let list = array_field(obj, "items", &empty);
    let mut names: Vec<String> = Vec::new();
    let mut ready: i64 = 0;
    let mut i: usize = 0;
    while i < list.len()
        invariant
            i <= list@.len(),
            list@.len() <= i64::MAX,
            0 <= ready <= i,
            (names@.map_values(|s: String| s@), ready as int) == pods_from(list@.take(i as int)),
        decreases list.len() - i,
    {
        assert(list@.take(i + 1).drop_last() == list@.take(i as int));
        let p = &list[i];
        let ghost before = names@;
        let n = match p.get("metadata") {
            Some(md) => md.str_at("name"),
            None => None,
        };
        match n {
            Some(n) => {
                names.push(copy_str(n));
                assert(names@.map_values(|s: String| s@) =~= before.map_values(|s: String| s@).push(n@));
            },
            None => {},
        }
        if is_pod_ready(p) {
            ready = ready + 1;
        }
        i = i + 1;
    }
    assert(list@.take(list@.len() as int) == list@);
    (names, ready)
}

/// The fallback over all pods of the namespace: only pods whose name starts
/// with the deployment's name.
pub open spec fn prefixed_pods_from(items: Seq<Json>, prefix: Seq<char>) -> (Seq<Seq<char>>, int)
    decreases items.len(),
{
    if items.len() == 0 {
        (Seq::empty(), 0)
    } else {
        let (names, ready) = prefixed_pods_from(items.drop_last(), prefix);
        let p = items.last();
        let n = str_or_empty(at(at(p, "metadata"@), "name"@));
        if !starts_with(n, prefix) {
            (names, ready)
        } else {
            (names.push(n), ready + if pod_ready(p) {
                1int
            } else {
                0int
            })
        }
    }
}

/// Reads the pods of a namespace list that belong to `deployment` by name prefix.
pub fn prefixed_pods_of(obj: &Json, deployment: &str) -> (r: (Vec<String>, i64))
    requires
        array_at(*obj, "items"@).len() <= i64::MAX,
    ensures
        (r.0@.map_values(|s: String| s@), r.1 as int) == prefixed_pods_from(
            array_at(*obj, "items"@),
            deployment@,
        ),
        r.1 == array_at(*obj, "items"@).filter(
            |p: Json| starts_with(str_or_empty(at(at(p, "metadata"@), "name"@)), deployment@) && has_ready_condition(p),
        ).len(),
{
    proof {
        law_prefixed_ready_count(array_at(*obj, "items"@), deployment@);
    }
    let empty: Vec<Json> = Vec::new();
    let list = array_field(obj, "items", &empty);
    let pre = chars_of(deployment);
    let mut names: Vec<String> = Vec::new();
    let mut ready: i64 = 0;
    let mut i: usize = 0;
    while i < list.len()
        invariant
            i <= list@.len(),
            list@.len() <= i64::MAX,
            pre@ == deployment@,
            0 <= ready <= i,
            (names@.map_values(|s: String| s@), ready as int) == prefixed_pods_from(
                list@.take(i as int),
                deployment@,
            ),
        decreases list.len() - i,
    {
        assert(list@.take(i + 1).drop_last() == list@.take(i as int));
        let p = &list[i];
        let n = match p.get("metadata") {
            Some(md) => str_field(md, "name"),
            None => String::new(),
        };
        if has_prefix(&chars_of(n.as_str()), &pre) {
            let ghost before = names@;
            let ghost nv = n@;
            names.push(n);
            assert(names@.map_values(|s: String| s@) =~= before.map_values(|s: String| s@).push(nv));
            if is_pod_ready(p) {
                ready = ready + 1;
            }
        }
        i = i + 1;
    }
    assert(list@.take(list@.len() as int) == list@);
    (names, ready)
}

} // verus!

verus! {

// ---------------------------------------------------------------------------
// Deployments
// ---------------------------------------------------------------------------

/// The first env entry named `SW_AGENT_NAME`.
pub open spec fn first_agent_env(envs: Seq<Json>) -> Option<Json>
    decreases envs.len(),
{
    if envs.len() == 0 {
        None
    } else if str_of(at(envs[0], "name"@)) == Some("SW_AGENT_NAME"@) {
        Some(envs[0])
    } else {
        first_agent_env(envs.drop_first())
    }
}

/// The container's `SW_AGENT_NAME` (empty when absent or not a string).
pub open spec fn agent_name_of(c: Json) -> Seq<char> {
    match items_of(at(c, "env"@)) {
        Some(envs) => match first_agent_env(envs) {
            Some(e) => str_or_empty(at(e, "value"@)),
            None => Seq::empty(),
        },
        None => Seq::empty(),
    }
}

/// `resources.limits[key]` of a container.
pub open spec fn limit_of(c: Json, key: Seq<char>) -> Seq<char> {
    str_or_empty(at(at(at(c, "resources"@), "limits"@), key))
}

/// The first non-empty agent name, cpu limit and memory limit over the containers.
pub open spec fn container_fields(cs: Seq<Json>) -> (Seq<char>, Seq<char>, Seq<char>)
    decreases cs.len(),
{
    if cs.len() == 0 {
        (Seq::empty(), Seq::empty(), Seq::empty())
    } else {
        let (a, c, m) = container_fields(cs.drop_last());
        let x = cs.last();
        (
            if a.len() == 0 {
                agent_name_of(x)
            } else {
                a
            },
            if c.len() == 0 {
                limit_of(x, "cpu"@)
            } else {
                c
            },
            if m.len() == 0 {
                limit_of(x, "memory"@)
            } else {
                m
            },
        )
    }
}

/// The text at `resources.limits.<key>` of a container (empty when absent).
pub open spec fn resource_limit(x: Json, key: Seq<char>) -> Seq<char> {
    match at(at(at(x, "resources"@), "limits"@), key) {
        Json::Str(s) => s@,
        _ => Seq::<char>::empty(),
    }
}

/// `v` is the first non-empty `resources.limits.<key>` among the containers
/// `cs`, or empty when none of them has one.
pub open spec fn first_limit_is(cs: Seq<Json>, key: Seq<char>, v: Seq<char>) -> bool {
    ||| v.len() == 0 && forall|i: int| 0 <= i < cs.len() ==> (#[trigger] resource_limit(cs[i], key)).len() == 0
    ||| exists|i: int|
        0 <= i < cs.len() && v.len() > 0 && #[trigger] resource_limit(cs[i], key) == v && forall|j: int|
            0 <= j < i ==> (#[trigger] resource_limit(cs[j], key)).len() == 0
}

/// A deployment's cpu limit is the first non-empty `resources.limits.cpu` of
/// its containers and its memory limit the first non-empty
/// `resources.limits.memory`.
pub proof fn law_container_limits(cs: Seq<Json>)
    ensures
        first_limit_is(cs, "cpu"@, container_fields(cs).1),
        first_limit_is(cs, "memory"@, container_fields(cs).2),
    decreases cs.len(),
{
    if cs.len() > 0 {
        let pre = cs.drop_last();
        law_container_limits(pre);
        let x = cs.last();
        let n = cs.len() - 1;
        assert(forall|i: int| 0 <= i < pre.len() ==> pre[i] == cs[i]);
        assert(cs[n] == x);
        assert(limit_of(x, "cpu"@) == resource_limit(x, "cpu"@));
        assert(limit_of(x, "memory"@) == resource_limit(x, "memory"@));
        assert forall|i: int| 0 <= i < pre.len() implies limit_of(#[trigger] pre[i], "cpu"@) == resource_limit(
            pre[i],
            "cpu"@,
        ) && limit_of(pre[i], "memory"@) == resource_limit(pre[i], "memory"@) by {}
        let c = container_fields(pre).1;
        if c.len() > 0 {
            let i = choose|i: int|
                0 <= i < pre.len() && c.len() > 0 && #[trigger] resource_limit(pre[i], "cpu"@) == c && forall|j: int|
                    0 <= j < i ==> (#[trigger] resource_limit(pre[j], "cpu"@)).len() == 0;
            assert(resource_limit(cs[i], "cpu"@) == c);
            assert(forall|j: int| 0 <= j < i ==> (#[trigger] resource_limit(cs[j], "cpu"@)).len() == 0);
        } else if resource_limit(x, "cpu"@).len() > 0 {
            assert(resource_limit(cs[n], "cpu"@) == container_fields(cs).1);
            assert(forall|j: int| 0 <= j < n ==> (#[trigger] resource_limit(cs[j], "cpu"@)).len() == 0);
        } else {
            assert(forall|i: int| 0 <= i < cs.len() ==> (#[trigger] resource_limit(cs[i], "cpu"@)).len() == 0);
        }
        let m = container_fields(pre).2;
        if m.len() > 0 {
            let i = choose|i: int|
                0 <= i < pre.len() && m.len() > 0 && #[trigger] resource_limit(pre[i], "memory"@) == m && forall|j: int|
                    0 <= j < i ==> (#[trigger] resource_limit(pre[j], "memory"@)).len() == 0;
            assert(resource_limit(cs[i], "memory"@) == m);
            assert(forall|j: int| 0 <= j < i ==> (#[trigger] resource_limit(cs[j], "memory"@)).len() == 0);
        } else if resource_limit(x, "memory"@).len() > 0 {
            assert(resource_limit(cs[n], "memory"@) == container_fields(cs).2);
            assert(forall|j: int| 0 <= j < n ==> (#[trigger] resource_limit(cs[j], "memory"@)).len() == 0);
        } else {
            assert(forall|i: int| 0 <= i < cs.len() ==> (#[trigger] resource_limit(cs[i], "memory"@)).len() == 0);
        }
    }
}

/// The limits a deployment is listed with are the first non-empty cpu and
/// memory limits of its containers, each from its own key.
pub proof fn law_deployment_limits(d: Json, namespace: Seq<char>)
    ensures
        deployment_of(d, namespace) matches Some(v) ==> first_limit_is(containers_of(d), "cpu"@, v.5)
            && first_limit_is(containers_of(d), "memory"@, v.6),
{
    law_container_limits(containers_of(d));
}

/// `v.as_i64().unwrap_or(0)`.
pub open spec fn int_or_zero(v: Json) -> i64 {
    match int_of(v) {
        Some(i) => i,
        None => 0,
    }
}

/// The containers of a deployment's pod template.
pub open spec fn containers_of(d: Json) -> Seq<Json> {
    match items_of(at(at(at(at(d, "spec"@), "template"@), "spec"@), "containers"@)) {
        Some(cs) => cs,
        None => Seq::empty(),
    }
}

/// One deployment of a Kubernetes list, when it has a name.
pub open spec fn deployment_of(d: Json, namespace: Seq<char>) -> Option<DeploymentView> {
    let name = str_or_empty(at(at(d, "metadata"@), "name"@));
    if name.len() == 0 {
        None
    } else {
        let (apm, cpu, mem) = container_fields(containers_of(d));
        Some(
            (
                name,
                namespace,
                int_or_zero(at(at(d, "spec"@), "replicas"@)),
                int_or_zero(at(at(d, "status"@), "readyReplicas"@)),
                apm,
                cpu,
                mem,
            ),
        )
    }
}

/// `a < b` in `String` order (code points, lexicographically).
pub open spec fn name_lt(a: Seq<char>, b: Seq<char>) -> bool
    decreases a.len(),
{
    if b.len() == 0 {
        false
    } else if a.len() == 0 {
        true
    } else if (a[0] as u32) < (b[0] as u32) {
        true
    } else if (a[0] as u32) > (b[0] as u32) {
        false
    } else {
        name_lt(a.drop_first(), b.drop_first())
    }
}

/// Where a stable insertion puts `name`: before the first strictly greater name.
pub open spec fn insert_pos(s: Seq<DeploymentView>, name: Seq<char>) -> nat
    decreases s.len(),
{
    if s.len() == 0 {
        0
    } else if name_lt(name, s[0].0) {
        0
    } else {
        1 + insert_pos(s.drop_first(), name)
    }
}

/// The deployments of a list, in stable name order (`sort_by` on the name).
pub open spec fn deployments_from(items: Seq<Json>, namespace: Seq<char>) -> Seq<DeploymentView>
    decreases items.len(),
{
    if items.len() == 0 {
        Seq::empty()
    } else {
        let pre = deployments_from(items.drop_last(), namespace);
        match deployment_of(items.last(), namespace) {
            Some(d) => pre.insert(insert_pos(pre, d.0) as int, d),
            None => pre,
        }
    }
}

/// `a < b` in `String` order.
pub fn name_lt_exec(a: &[char], b: &[char]) -> (r: bool)
    ensures
        r == name_lt(a@, b@),
{
    let mut i: usize = 0;
    assert(a@.skip(0) == a@ && b@.skip(0) == b@);
    while i < a.len() && i < b.len() && (a[i] as u32) == (b[i] as u32)
        invariant
            i <= a@.len(),
            i <= b@.len(),
            name_lt(a@, b@) == name_lt(a@.skip(i as int), b@.skip(i as int)),
        decreases a.len() - i,
    {
        assert(a@.skip(i as int).drop_first() == a@.skip(i + 1));
        assert(b@.skip(i as int).drop_first() == b@.skip(i + 1));
        assert(a@.skip(i as int)[0] == a@[i as int] && b@.skip(i as int)[0] == b@[i as int]);
        i = i + 1;
    }
    if i == b.len() {
        false
    } else if i == a.len() {
        true
    } else {
        assert(a@.skip(i as int)[0] == a@[i as int] && b@.skip(i as int)[0] == b@[i as int]);
        (a[i] as u32) < (b[i] as u32)
    }
}

/// Reads the env `SW_AGENT_NAME` of a container.
pub fn env_value(c: &Json) -> (s: String)
    ensures
        s@ == agent_name_of(*c),
{
    let envs = match c.get("env") {
        Some(e) => match e.as_array() {
            Some(a) => a,
            None => {
                return String::new();
            },
        },
        None => {
            return String::new();
        },
    };
    let mut i: usize = 0;
    assert(envs@.skip(0) == envs@);
    while i < envs.len()
        invariant
            i <= envs@.len(),
            items_of(at(*c, "env"@)) == Some(envs@),
            first_agent_env(envs@) == first_agent_env(envs@.skip(i as int)),
        decreases envs.len() - i,
    {
        assert(envs@.skip(i as int).drop_first() == envs@.skip(i + 1));
        assert(envs@.skip(i as int)[0] == envs@[i as int]);
        let is_agent = match envs[i].str_at("name") {
            Some(n) => crate::json::str_eq(n, "SW_AGENT_NAME"),
            None => false,
        };
        if is_agent {
            return str_field(&envs[i], "value");
        }
        i = i + 1;
    }
    String::new()
}

/// Reads `resources.limits.{cpu, memory}` of a container.
pub fn limits_of(c: &Json) -> (r: (String, String))
    ensures
        r.0@ == limit_of(*c, "cpu"@),
        r.1@ == limit_of(*c, "memory"@),
{
    match c.get("resources") {
        Some(res) => match res.get("limits") {
            Some(l) => (str_field(l, "cpu"), str_field(l, "memory")),
            None => (String::new(), String::new()),
        },
        None => (String::new(), String::new()),
    }
}

fn int_field(v: Option<&Json>, key: &str) -> (r: i64)
    ensures
        r == match v {
            Some(x) => int_or_zero(at(*x, key@)),
            None => 0i64,
        },
{
    match v {
        Some(x) => match x.get(key) {
            Some(y) => match y.as_i64() {
                Some(i) => i,
                None => 0,
            },
            None => 0,
        },
        None => 0,
    }
}

fn read_deployment(d: &Json, namespace: &str) -> (r: Option<DeploymentInfo>)
    ensures
        match r {
            Some(x) => deployment_of(*d, namespace@) == Some(x.view()),
            None => deployment_of(*d, namespace@) is None,
        },
{
    let name = match d.get("metadata") {
        Some(md) => str_field(md, "name"),
        None => String::new(),
    };
    if name.as_str().is_empty() {
        return None;
    }
    let empty: Vec<Json> = Vec::new();
    let containers: &Vec<Json> = match d.get("spec") {
        Some(sp) => match sp.get("template") {
            Some(t) => match t.get("spec") {
                Some(ts) => array_field(ts, "containers", &empty),
                None => &empty,
            },
            None => &empty,
        },
        None => &empty,
    };
    assert(containers@ == containers_of(*d));
    let mut apm = String::new();
    let mut cpu = String::new();
    let mut mem = String::new();
    let mut i: usize = 0;
    while i < containers.len()
        invariant
            i <= containers@.len(),
            (apm@, cpu@, mem@) == container_fields(containers@.take(i as int)),
        decreases containers.len() - i,
    {
        assert(containers@.take(i + 1).drop_last() == containers@.take(i as int));
        let c = &containers[i];
        if apm.as_str().is_empty() {
            apm = env_value(c);
        }
        let (c1, m1) = limits_of(c);
        if cpu.as_str().is_empty() && !c1.as_str().is_empty() {
            cpu = c1;
        }
        if mem.as_str().is_empty() && !m1.as_str().is_empty() {
            mem = m1;
        }
        i = i + 1;
    }
    assert(containers@.take(containers@.len() as int) == containers@);
    let replicas = int_field(d.get("spec"), "replicas");
    let ready = int_field(d.get("status"), "readyReplicas");
    Some(
        DeploymentInfo {
            name,
            namespace: copy_str(namespace),
            replicas,
            ready,
            apm_name: apm,
            cpu_limit: cpu,
            mem_limit: mem,
        },
    )
}

/// The deployment list (with `SW_AGENT_NAME` and one pod's limits) of a
/// Kubernetes `deployments` answer, sorted by name.
pub fn deployments_of(obj: &Json, namespace: &str) -> (out: Vec<DeploymentInfo>)
    ensures
        out@.map_values(|d: DeploymentInfo| d.view()) == deployments_from(
            array_at(*obj, "items"@),
            namespace@,
        ),
{
    let empty: Vec<Json> = Vec::new();
    let list = array_field(obj, "items", &empty);
    let mut out: Vec<DeploymentInfo> = Vec::new();
    let mut i: usize = 0;
    while i < list.len()
        invariant
            i <= list@.len(),
            out@.map_values(|d: DeploymentInfo| d.view()) == deployments_from(
                list@.take(i as int),
                namespace@,
            ),
        decreases list.len() - i,
    {
        assert(list@.take(i + 1).drop_last() == list@.take(i as int));
        match read_deployment(&list[i], namespace) {
            Some(d) => {
                let ghost pre = out@.map_values(|d: DeploymentInfo| d.view());
                let dn = chars_of(d.name.as_str());
                let mut p: usize = 0;
                assert(pre.skip(0) == pre);
                while p < out.len() && !name_lt_exec(&dn, &chars_of(out[p].name.as_str()))
                    invariant
                        p <= out@.len(),
                        dn@ == d.name@,
                        pre == out@.map_values(|d: DeploymentInfo| d.view()),
                        insert_pos(pre, d.name@) == p + insert_pos(pre.skip(p as int), d.name@),
                    decreases out.len() - p,
                {
                    assert(pre.skip(p as int).drop_first() == pre.skip(p + 1));
                    assert(pre.skip(p as int)[0] == pre[p as int]);
                    p = p + 1;
                }
                proof {
                    if p < out@.len() {
                        assert(pre.skip(p as int)[0] == pre[p as int]);
                    }
                }
                let ghost dv = d.view();
                out.insert(p, d);
                assert(out@.map_values(|d: DeploymentInfo| d.view()) =~= pre.insert(p as int, dv));
            },
            None => {},
        }
        i = i + 1;
    }
    assert(list@.take(list@.len() as int) == list@);
    out
}


// ---------------------------------------------------------------------------
// The order of names
// ---------------------------------------------------------------------------

/// No name comes before itself.
pub proof fn lemma_name_lt_irreflexive(a: Seq<char>)
    ensures
        !name_lt(a, a),
    decreases a.len(),
{
    if a.len() > 0 {
        lemma_name_lt_irreflexive(a.drop_first());
    }
}

/// If `a` comes before `b`, `b` does not come before `a`.
pub proof fn lemma_name_lt_asymmetric(a: Seq<char>, b: Seq<char>)
    requires
        name_lt(a, b),
    ensures
        !name_lt(b, a),
    decreases a.len(),
{
    if a.len() > 0 && b.len() > 0 && (a[0] as u32) == (b[0] as u32) {
        lemma_name_lt_asymmetric(a.drop_first(), b.drop_first());
    }
}

/// The order of names is transitive.
pub proof fn lemma_name_lt_transitive(a: Seq<char>, b: Seq<char>, c: Seq<char>)
    requires
        name_lt(a, b),
        name_lt(b, c),
    ensures
        name_lt(a, c),
    decreases a.len(),
{
    if a.len() > 0 && (a[0] as u32) == (b[0] as u32) && (b[0] as u32) == (c[0] as u32) {
        lemma_name_lt_transitive(a.drop_first(), b.drop_first(), c.drop_first());
    }
}

/// Two names neither of which comes first are equal.
pub proof fn lemma_name_lt_total(a: Seq<char>, b: Seq<char>)
    requires
        !name_lt(a, b),
        !name_lt(b, a),
    ensures
        a == b,
    decreases a.len(),
{
    if a.len() > 0 && b.len() > 0 {
        assert((a[0] as u32) == (b[0] as u32));
        vstd::utf8::char_u32_cast(a[0], a[0] as u32);
        vstd::utf8::char_u32_cast(b[0], b[0] as u32);
        assert(a[0] == b[0]);
        lemma_name_lt_total(a.drop_first(), b.drop_first());
        assert(a =~= seq![a[0]] + a.drop_first());
        assert(b =~= seq![b[0]] + b.drop_first());
    }
}

/// The names of `s` never go down.
pub open spec fn sorted_by_name(s: Seq<DeploymentView>) -> bool {
    forall|i: int, j: int| 0 <= i < j < s.len() ==> !name_lt(#[trigger] s[j].0, #[trigger] s[i].0)
}

proof fn lemma_insert_pos(s: Seq<DeploymentView>, name: Seq<char>)
    ensures
        insert_pos(s, name) <= s.len(),
        forall|k: int| 0 <= k < insert_pos(s, name) ==> !name_lt(name, #[trigger] s[k].0),
        insert_pos(s, name) < s.len() ==> name_lt(name, s[insert_pos(s, name) as int].0),
    decreases s.len(),
{
    if s.len() > 0 && !name_lt(name, s[0].0) {
        lemma_insert_pos(s.drop_first(), name);
        assert forall|k: int| 0 <= k < insert_pos(s, name) implies !name_lt(name, #[trigger] s[k].0) by {
            if k > 0 {
                assert(s[k] == s.drop_first()[k - 1]);
            }
        }
        if insert_pos(s, name) < s.len() {
            assert(s[insert_pos(s, name) as int] == s.drop_first()[insert_pos(s.drop_first(), name) as int]);
        }
    }
}

proof fn lemma_insert_sorted(pre: Seq<DeploymentView>, d: DeploymentView)
    requires
        sorted_by_name(pre),
    ensures
        sorted_by_name(pre.insert(insert_pos(pre, d.0) as int, d)),
{
    lemma_insert_pos(pre, d.0);
    let p = insert_pos(pre, d.0) as int;
    let out = pre.insert(p, d);
    assert forall|i: int, j: int| 0 <= i < j < out.len() implies !name_lt(#[trigger] out[j].0, #[trigger] out[i].0) by {
        if j < p {
            assert(out[i] == pre[i] && out[j] == pre[j]);
        } else if j == p {
            assert(out[i] == pre[i]);
            assert(!name_lt(d.0, pre[i].0));
        } else if i == p {
            assert(out[j] == pre[j - 1]);
            assert(name_lt(d.0, pre[p].0));
            if j - 1 == p {
                lemma_name_lt_asymmetric(d.0, pre[p].0);
            } else {
                assert(!name_lt(pre[j - 1].0, pre[p].0));
                if name_lt(pre[j - 1].0, d.0) {
                    lemma_name_lt_transitive(pre[j - 1].0, d.0, pre[p].0);
                }
            }
        } else if i < p {
            assert(out[i] == pre[i] && out[j] == pre[j - 1]);
        } else {
            assert(out[i] == pre[i - 1] && out[j] == pre[j - 1]);
        }
    }
}

/// The deployment list comes out in name order.
pub proof fn law_deployments_sorted(items: Seq<Json>, namespace: Seq<char>)
    ensures
        sorted_by_name(deployments_from(items, namespace)),
    decreases items.len(),
{
    if items.len() > 0 {
        law_deployments_sorted(items.drop_last(), namespace);
        let pre = deployments_from(items.drop_last(), namespace);
        match deployment_of(items.last(), namespace) {
            Some(d) => {
                lemma_insert_sorted(pre, d);
            },
            None => {},
        }
    }
}


// ---------------------------------------------------------------------------
// Request payloads of the container service
// ---------------------------------------------------------------------------

/// `{"Version": "2018-05-25", "Limit": 100}`: the clusters of the account.
pub fn clusters_payload() -> (p: Json)
    ensures
        member_keys(p) == seq!["Version"@, "Limit"@],
        str_of(member_value(p, 0)) == Some("2018-05-25"@),
        int_of(member_value(p, 1)) == Some(100i64),
{
    let mut m: Vec<(String, Json)> = Vec::new();
    push_text(&mut m, "Version", "2018-05-25");
    push_int(&mut m, "Limit", 100);
    let p = Json::Object(m);
    assert(member_keys(p) =~= seq!["Version"@, "Limit"@]);
    p
}

/// `{"Version": "2018-05-25", "ClusterId": cluster_id}`: the namespaces of a cluster.
pub fn namespaces_payload(cluster_id: &str) -> (p: Json)
    ensures
        member_keys(p) == seq!["Version"@, "ClusterId"@],
        str_of(member_value(p, 0)) == Some("2018-05-25"@),
        str_of(member_value(p, 1)) == Some(cluster_id@),
{
    let mut m: Vec<(String, Json)> = Vec::new();
    push_text(&mut m, "Version", "2018-05-25");
    push_text(&mut m, "ClusterId", cluster_id);
    let p = Json::Object(m);
    assert(member_keys(p) =~= seq!["Version"@, "ClusterId"@]);
    p
}

/// The two utilisation metrics: the key they are reported under and the
/// dashboard metric behind it.
pub open spec fn util_metrics() -> Seq<(Seq<char>, Seq<char>)> {
    seq![("cpu_util_limit"@, "K8sPodRateCpuCoreUsedLimit"@), ("mem_util_limit"@, "K8sPodRateMemNoCacheLimit"@)]
}

/// One dashboard query of the utilisation payload.
pub open spec fn is_util_query(
    q: Json,
    metric: Seq<char>,
    region: Seq<char>,
    dims: Seq<char>,
    period: i64,
    start: Seq<char>,
    end: Seq<char>,
) -> bool {
    let cond = items_or_empty(member_value(q, 3));
    &&& member_keys(q) == seq![
        "Datasource"@,
        "Namespace"@,
        "MetricName"@,
        "Conditions"@,
        "GroupBy"@,
        "StartTime"@,
        "EndTime"@,
        "Period"@,
        "QueryVersion"@,
    ]
    &&& str_of(member_value(q, 0)) == Some("DS_QCEMetric"@)
    &&& str_of(member_value(q, 1)) == Some("QCE/TKE2"@)
    &&& str_of(member_value(q, 2)) == Some(metric)
    &&& cond.len() == 1
    &&& member_keys(cond[0]) == seq!["Region"@, "Dimension"@]
    &&& str_of(member_value(cond[0], 0)) == Some(region)
    &&& items_or_empty(member_value(cond[0], 1)).len() == 1
    &&& str_of(items_or_empty(member_value(cond[0], 1))[0]) == Some(dims)
    &&& items_or_empty(member_value(q, 4)).len() == 1
    &&& str_of(items_or_empty(member_value(q, 4))[0]) == Some("InstanceId"@)
    &&& str_of(member_value(q, 5)) == Some(start)
    &&& str_of(member_value(q, 6)) == Some(end)
    &&& int_of(member_value(q, 7)) == Some(period)
    &&& str_of(member_value(q, 8)) == Some("2020-10-21"@)
}

fn util_query(metric: &str, region: &str, dims: &str, period: i64, start: &str, end: &str) -> (q: Json)
    ensures
        is_util_query(q, metric@, region@, dims@, period, start@, end@),
{
    let mut c: Vec<(String, Json)> = Vec::new();
    push_text(&mut c, "Region", region);
    push_value(&mut c, "Dimension", text_array(&[dims]));
    let cond = Json::Object(c);
    assert(member_keys(cond) =~= seq!["Region"@, "Dimension"@]);
    let mut conds: Vec<Json> = Vec::new();
    conds.push(cond);
    let mut m: Vec<(String, Json)> = Vec::new();
    push_text(&mut m, "Datasource", "DS_QCEMetric");
    push_text(&mut m, "Namespace", "QCE/TKE2");
    push_text(&mut m, "MetricName", metric);
    push_value(&mut m, "Conditions", Json::Array(conds));
    push_value(&mut m, "GroupBy", text_array(&["InstanceId"]));
    push_text(&mut m, "StartTime", start);
    push_text(&mut m, "EndTime", end);
    push_int(&mut m, "Period", period);
    push_text(&mut m, "QueryVersion", "2020-10-21");
    let q = Json::Object(m);
    assert(member_keys(q) =~= seq![
        "Datasource"@,
        "Namespace"@,
        "MetricName"@,
        "Conditions"@,
        "GroupBy"@,
        "StartTime"@,
        "EndTime"@,
        "Period"@,
        "QueryVersion"@,
    ]);
    q
}

/// The payload of `DescribeDashboardMetricData` for the utilisation of one
/// workload: `dims` is the text of `dimension_json`, `start` / `end` the
/// window in local ISO time, `period` from `pick_period`.
pub open spec fn is_util_payload(
    p: Json,
    region: Seq<char>,
    dims: Seq<char>,
    period: i64,
    start: Seq<char>,
    end: Seq<char>,
) -> bool {
    &&& member_keys(p) == seq!["Version"@, "Language"@, "SpaceUUID"@, "Module"@, "Query"@]
    &&& str_of(member_value(p, 0)) == Some("2018-07-24"@)
    &&& str_of(member_value(p, 1)) == Some("zh-CN"@)
    &&& str_of(member_value(p, 2)) == Some("space_default"@)
    &&& str_of(member_value(p, 3)) == Some("monitor"@)
    &&& items_or_empty(member_value(p, 4)).len() == 2
    &&& forall|i: int|
        0 <= i < 2 ==> is_util_query(
            #[trigger] items_or_empty(member_value(p, 4))[i],
            util_metrics()[i].1,
            region,
            dims,
            period,
            start,
            end,
        )
}

/// The utilisation payload for the window `start..end` given as local ISO
/// times.
pub fn util_payload(region: &str, dims: &str, period: i64, start: &str, end: &str) -> (p: Json)
    ensures
        is_util_payload(p, region@, dims@, period, start@, end@),
{
    let mut qs: Vec<Json> = Vec::new();
    qs.push(util_query("K8sPodRateCpuCoreUsedLimit", region, dims, period, start, end));
    qs.push(util_query("K8sPodRateMemNoCacheLimit", region, dims, period, start, end));
    let mut m: Vec<(String, Json)> = Vec::new();
    push_text(&mut m, "Version", "2018-07-24");
    push_text(&mut m, "Language", "zh-CN");
    push_text(&mut m, "SpaceUUID", "space_default");
    push_text(&mut m, "Module", "monitor");
    push_value(&mut m, "Query", Json::Array(qs));
    let p = Json::Object(m);
    assert(member_keys(p) =~= seq!["Version"@, "Language"@, "SpaceUUID"@, "Module"@, "Query"@]);
    p
}

/// An offset from UTC in seconds as chrono's `%:z` writes it: the sign
/// (`-` only for a negative offset), then hours and minutes, the seconds
/// rounded to the nearest minute.
pub open spec fn offset_text(off: int) -> Seq<char> {
    let a = if off < 0 {
        -off
    } else {
        off
    };
    let minutes = (a + 30) / 60;
    (if off < 0 {
        "-"@
    } else {
        "+"@
    }) + crate::tc3::two_digits(minutes / 60) + ":"@ + crate::tc3::two_digits(minutes % 60)
}

/// The instant `secs` (Unix seconds) read in a time zone `off` seconds ahead
/// of UTC, written `%Y-%m-%dT%H:%M:%S%:z`: the wall-clock date and time
/// `secs + off`, then the offset.
pub open spec fn local_iso_text(secs: int, off: int) -> Seq<char> {
    let t = secs + off;
    let (y, m, d) = crate::tc3::civil_from_days(t / 86400);
    let s = t % 86400;
    crate::tc3::year_text(y) + "-"@ + crate::tc3::two_digits(m) + "-"@ + crate::tc3::two_digits(d) + "T"@
        + crate::tc3::two_digits(s / 3600) + ":"@ + crate::tc3::two_digits(s % 3600 / 60) + ":"@
        + crate::tc3::two_digits(s % 60) + offset_text(off)
}

/// `r` is what the machine's clock settings give for the instant `secs`: the
/// instant in some time zone less than a day off UTC, or nothing when the
/// zone has no single reading of it.
pub open spec fn is_local_time_of(r: Seq<char>, secs: int) -> bool {
    r.len() == 0 || exists|off: int| -86400 < off < 86400 && r == #[trigger] local_iso_text(secs, off)
}

/// `chrono::Local` at `secs` (Unix seconds), written `%Y-%m-%dT%H:%M:%S%:z`,
/// or the empty text when the machine's time zone has no single reading of
/// that instant (`timestamp_opt(..).single()` is `None`). The contract
/// claims that a text, when there is one, is the instant `secs` read at the
/// offset chrono used: its `FixedOffset` is less than a day, the local
/// date-time is `secs` plus that offset in the proleptic Gregorian calendar,
/// and `%:z` prints that offset. Which offset it is depends on the machine's
/// time zone and is not claimed.
#[verifier::external_body]
pub(crate) fn iso_local(secs: i64) -> (r: String)
    ensures
        is_local_time_of(r@, secs as int),
{
    chrono::TimeZone::timestamp_opt(&chrono::Local, secs, 0)
        .single()
        .map(|d| d.format("%Y-%m-%dT%H:%M:%S%:z").to_string())
        .unwrap_or_default()
}

/// The utilisation payload of the window `start..end` (Unix seconds): the
/// period picked for the window, and the two ends written in the machine's
/// local time.
pub fn util_payload_at(region: &str, dims: &str, start: i64, end: i64) -> (p: Json)
    ensures
        exists|s: Seq<char>, e: Seq<char>|
            #[trigger] is_util_payload(p, region@, dims@, period_for(start, end), s, e)
                && is_local_time_of(s, start as int) && is_local_time_of(e, end as int),
{
    let period = pick_period(start, end);
    let s = iso_local(start);
    let e = iso_local(end);
    let p = util_payload(region, dims, period, s.as_str(), e.as_str());
    assert(is_util_payload(p, region@, dims@, period_for(start, end), s@, e@));
    p
}

} // verus!
