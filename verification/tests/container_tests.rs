use apm_monitor::container::{
    deployments_path, dimension_json, k8s_body, k8s_payload, namespace_pods_path, pick_period, pods_path,
};
use apm_monitor::json::Json;
use serde_json::Value;

fn value_of(j: &Json) -> Value {
    match j {
        Json::Null => Value::Null,
        Json::Bool(b) => Value::Bool(*b),
        Json::Number(n) => match (n.int, n.uint) {
            (Some(i), _) => Value::from(i),
            (None, Some(u)) => Value::from(u),
            _ => serde_json::from_str(&n.text).unwrap_or(Value::Null),
        },
        Json::Str(s) => Value::String(s.clone()),
        Json::Array(a) => Value::Array(a.iter().map(value_of).collect()),
        Json::Object(m) => {
            let mut o = serde_json::Map::new();
            for (k, v) in m {
                o.insert(k.clone(), value_of(v));
            }
            Value::Object(o)
        }
    }
}

fn strings(v: &[&str]) -> Value {
    Value::Array(v.iter().map(|s| Value::String(s.to_string())).collect())
}

#[test]
fn dimension_json_has_all_five_dims_the_console_sends() {
    let j = dimension_json("ap-shanghai", "cls-abc", "inc", "inc-center", &["p1".to_string(), "p2".to_string()]);
    let s = value_of(&j).to_string();
    let v: Value = serde_json::from_str(&s).unwrap();
    let keys: Vec<&str> = v.as_array().unwrap().iter().map(|d| d["Key"].as_str().unwrap()).collect();
    assert_eq!(keys, vec!["region", "tke_cluster_instance_id", "pod_name", "namespace", "workload_name"]);
    assert_eq!(v[0]["Operator"], "eq");
    assert_eq!(v[1]["Operator"], "in");
    assert_eq!(v[2]["Value"], strings(&["p1", "p2"]));
    assert_eq!(v[3]["Value"], strings(&["inc"]));
    assert_eq!(v[4]["Value"], strings(&["inc-center"]));
}

#[test]
fn dimension_json_omits_empty_optional_dims() {
    let j = dimension_json("ap-shanghai", "cls-abc", "", "", &[]);
    let s = value_of(&j).to_string();
    let v: Value = serde_json::from_str(&s).unwrap();
    assert_eq!(v.as_array().unwrap().len(), 2, "只该剩 region + cluster");
}

#[test]
fn period_matches_console_for_short_windows() {
    assert_eq!(pick_period(0, 3600), 60);
    assert_eq!(pick_period(0, 6 * 3600), 300);
    assert_eq!(pick_period(0, 24 * 3600), 3600);
    assert_eq!(pick_period(0, 7 * 24 * 3600), 86400);
    assert_eq!(pick_period(100, 0), 60);
}

#[test]
fn period_edges_are_inclusive() {
    assert_eq!(pick_period(0, 3601), 300);
    assert_eq!(pick_period(0, 6 * 3600 + 1), 3600);
    assert_eq!(pick_period(0, 24 * 3600 + 1), 86400);
}

#[test]
fn region_and_cluster_dimensions_carry_their_operators() {
    let v = value_of(&dimension_json("ap-guangzhou", "cls-x", "", "w", &[]));
    let a = v.as_array().unwrap();
    assert_eq!(a.len(), 3);
    assert_eq!(a[0]["Value"], strings(&["ap-guangzhou"]));
    assert_eq!(a[2]["Key"], "workload_name");
    assert_eq!(a[2]["Operator"], "eq");
}

#[test]
fn k8s_paths_follow_the_api_layout() {
    assert_eq!(deployments_path("/apis/apps/v1", "ns"), "/apis/apps/v1/namespaces/ns/deployments?limit=500");
    assert_eq!(deployments_path("//apis/apps/v1", "ns"), "/apis/apps/v1/namespaces/ns/deployments?limit=500");
    assert_eq!(namespace_pods_path("ns"), "/api/v1/namespaces/ns/pods?limit=1000");
    assert_eq!(pods_path("/apis/apps/v1", "ns", "web"), "/apis/apps/v1/namespaces/ns/deployments/web/pods?limit=500");
}

#[test]
fn k8s_payload_names_cluster_and_path() {
    let v = value_of(&k8s_payload("cls-1", "/api/v1/namespaces"));
    assert_eq!(v["ClusterName"], "cls-1");
    assert_eq!(v["Path"], "/api/v1/namespaces");
}

#[test]
fn k8s_body_reads_the_forwarded_text() {
    let resp = Json::Object(vec![("ResponseBody".to_string(), Json::Str("{\"items\":[]}".to_string()))]);
    match k8s_body(&resp) {
        Ok(t) => assert_eq!(t, "{\"items\":[]}"),
        Err(e) => panic!("{}", e),
    }
}
