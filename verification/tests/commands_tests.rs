use apm_monitor::commands::{
    app_rows, apm_stages, dispatch_next, instance_rows, ApmStage, Dispatch,
    check_apm_query, check_container_query, check_db_query, instance_display, instance_dtos, is_login_label,
    kept_fields_log, login_label, plan_metrics, rejected_session_error, session_updated_log, skipped_metric_log,
    use_quick_login, with_session, capture_outcome, CaptureOutcome, QueryStage, WorkloadReport,
};
use apm_monitor::config::{Config, MetricDef};
use apm_monitor::cred::cred;
use apm_monitor::db::DbInstance;

fn def(name: &str, view: &str) -> MetricDef {
    MetricDef { name: name.to_string(), view: view.to_string(), cn: String::new() }
}

#[test]
fn plan_groups_by_view_and_sets_aside_special_metrics() {
    let ms = vec![
        def("a", "service_metric"),
        def("q", "computed"),
        def("i", "instance_metric"),
        def("b", "sql_metric"),
        def("c", "service_metric"),
        def("z", "container"),
    ];
    let p = plan_metrics(&ms, true);
    let views: Vec<&str> = p.by_view.iter().map(|(v, _)| v.as_str()).collect();
    assert_eq!(views, vec!["service_metric", "sql_metric"]);
    assert_eq!(p.by_view[0].1, vec!["a".to_string(), "c".to_string()]);
    assert_eq!(p.instance, vec!["i".to_string()]);
    assert_eq!(p.skipped, vec![("z".to_string(), "container".to_string())]);
    let p = plan_metrics(&ms, false);
    assert_eq!(p.by_view.len(), 3);
    assert!(p.skipped.is_empty());
}

#[test]
fn queries_are_refused_without_a_selection() {
    assert_eq!(check_apm_query("", 1, 1).err().unwrap(), "未配置业务系统 ID");
    assert_eq!(check_apm_query("apm-1", 0, 1).err().unwrap(), "未选择应用");
    assert_eq!(check_apm_query("apm-1", 1, 0).err().unwrap(), "未选择指标");
    assert!(check_apm_query("apm-1", 1, 1).is_ok());
    assert_eq!(check_db_query(0, 1).err().unwrap(), "未选择数据库实例");
    assert_eq!(check_db_query(1, 0).err().unwrap(), "未选择指标");
    assert_eq!(check_container_query(0).err().unwrap(), "未选择工作负载");
    assert!(check_container_query(2).is_ok());
}

#[test]
fn instance_names_are_shown_beside_ids() {
    assert_eq!(instance_display("cdb-1", Some("主库")), "cdb-1（主库）");
    assert_eq!(instance_display("cdb-1", Some("")), "cdb-1");
    assert_eq!(instance_display("cdb-1", None), "cdb-1");
}

#[test]
fn instance_dtos_keep_order() {
    let l = vec![
        DbInstance { id: "a".into(), name: "x".into() },
        DbInstance { id: "b".into(), name: "y".into() },
    ];
    let d = instance_dtos(l);
    assert_eq!((d[0].id.as_str(), d[1].name.as_str()), ("a", "y"));
}

#[test]
fn workload_report_keeps_the_first_error() {
    let mut r: WorkloadReport<f64> = WorkloadReport::new("web");
    r.push("pod_ready", 2.0);
    r.stage_failed(QueryStage::Pods, "timeout");
    r.stage_failed(QueryStage::ApmView, "later");
    r.agent_missing();
    assert_eq!(r.error.as_deref(), Some("Pod 查询失败: timeout"));
    assert_eq!(r.values.len(), 1);
    let mut r: WorkloadReport<f64> = WorkloadReport::new("api");
    r.agent_missing();
    assert_eq!(r.error.as_deref(), Some("未配置 SW_AGENT_NAME，无法关联 APM 应用"));
    let m: WorkloadReport<f64> = WorkloadReport::missing();
    assert_eq!(m.error.as_deref(), Some("工作负载不存在"));
    assert!(m.name.is_empty());
}

#[test]
fn capture_messages_hide_cookie_values() {
    let e = rejected_session_error(&cred("接口错误 9: 登录态验证失败"), "uin=o1; ownerUin=O2G");
    assert!(e.starts_with("新会话未通过校验，已保留原会话：接口错误 9: 登录态验证失败（Cookie 完整度："), "{}", e);
    assert!(!e.contains("o1"), "{}", e);
    assert_eq!(session_updated_log(12, "", "9"), "会话已更新（cookie 12 字符，uin=- ownerUin=9）");
    assert_eq!(kept_fields_log(&vec!["cookie", "csrfCode"]), "以下字段未更新，沿用原值：cookie, csrfCode");
    assert_eq!(skipped_metric_log("m", "v"), "跳过指标 m（视图名 \"v\" 不是 APM 的视图，可能是旧配置残留）");
}

#[test]
fn login_labels_and_quick_login_switch() {
    assert_eq!(login_label(5), "cloud-login-5");
    assert!(is_login_label("cloud-login-5"));
    assert!(!is_login_label("cloud-capi-fetch-5"));
    assert!(use_quick_login(false, true));
    assert!(!use_quick_login(true, true));
    assert!(!use_quick_login(false, false));
}

#[test]
fn with_session_takes_the_disk_session() {
    let disk = Config { cookie: "c".into(), csrf_code: "t".into(), session_fetched_at: 5, ..Config::with_defaults() };
    let user = Config { instance_id: "apm-x".into(), ..Config::with_defaults() };
    let r = with_session(&disk, user);
    assert_eq!((r.cookie.as_str(), r.csrf_code.as_str(), r.session_fetched_at), ("c", "t", 5));
    assert_eq!(r.instance_id, "apm-x");
}

#[test]
fn capture_saves_only_a_checked_session_with_uin() {
    let stored = || Config { cookie: "old=1".into(), csrf_code: "t0".into(), session_fetched_at: 5, ..Config::with_defaults() };
    match capture_outcome(stored(), "uin=o1; skey=@a".into(), String::new(), Some(Ok(())), 99) {
        CaptureOutcome::Saved(c, kept) => {
            assert_eq!(c.cookie, "uin=o1; skey=@a");
            assert_eq!(c.csrf_code, "t0");
            assert_eq!(c.session_fetched_at, 99);
            assert_eq!(kept, vec!["csrfCode"]);
        }
        CaptureOutcome::Refused(e) => panic!("refused: {}", e),
    }
    match capture_outcome(stored(), "uin=o1".into(), "t1".into(), Some(Err(cred("接口错误 9: 登录态验证失败"))), 99) {
        CaptureOutcome::Refused(e) => assert_eq!(e, rejected_session_error(&cred("接口错误 9: 登录态验证失败"), "uin=o1")),
        CaptureOutcome::Saved(..) => panic!("a failed check must not be saved"),
    }
    match capture_outcome(stored(), "skey=@a".into(), "t1".into(), None, 99) {
        CaptureOutcome::Refused(e) => assert_eq!(e, "未检测到登录态"),
        CaptureOutcome::Saved(..) => panic!("a cookie without uin must not be saved"),
    }
}

#[test]
fn dispatch_checks_stop_before_each_task() {
    assert!(matches!(dispatch_next(3, 0, false), Dispatch::Send(0)));
    assert!(matches!(dispatch_next(3, 2, false), Dispatch::Send(2)));
    assert!(matches!(dispatch_next(3, 1, true), Dispatch::Stop));
    assert!(matches!(dispatch_next(3, 3, true), Dispatch::Finished));
    assert!(matches!(dispatch_next(0, 0, false), Dispatch::Finished));
}

#[test]
fn apm_stages_follow_the_plan() {
    assert!(apm_stages("", 2, true).is_none());
    let s = apm_stages("order-svc", 2, true).unwrap();
    assert_eq!(s.len(), 3);
    assert!(matches!(s[0], ApmStage::View(0)));
    assert!(matches!(s[1], ApmStage::View(1)));
    assert!(matches!(s[2], ApmStage::Instance));
    assert!(apm_stages("order-svc", 0, false).unwrap().is_empty());
}

#[test]
fn app_rows_keep_app_order_metric_order_and_own_errors() {
    let defs = vec![def("a", "service_metric"), def("b", "service_metric")];
    let apps = vec!["x".to_string(), "y".to_string()];
    let got = vec![vec![("b".to_string(), 2i64), ("a".to_string(), 1i64)], vec![]];
    let errors = vec![None, Some("APM 指标查询失败: boom".to_string())];
    let rows = app_rows(&apps, &defs, &got, &errors);
    assert_eq!(rows.len(), 2);
    assert_eq!(rows[0].name, "x");
    assert_eq!(rows[0].values, vec![("a".to_string(), 1), ("b".to_string(), 2)]);
    assert!(rows[0].error.is_none());
    assert_eq!(rows[1].name, "y");
    assert!(rows[1].values.is_empty());
    assert_eq!(rows[1].error.as_deref(), Some("APM 指标查询失败: boom"));
}

#[test]
fn instance_rows_cover_only_the_instances_sent() {
    let ids = vec!["cdb-1".to_string(), "cdb-2".to_string(), "cdb-3".to_string()];
    let names = vec![Some("订单库".to_string()), None, None];
    let got = vec![vec![("cpu".to_string(), 5i64)], vec![]];
    let errors = vec![None, Some("boom".to_string())];
    let rows = instance_rows(&ids, &names, 2, &got, &errors);
    assert_eq!(rows.len(), 2);
    assert_eq!(rows[0].name, instance_display("cdb-1", Some("订单库")));
    assert_eq!(rows[0].values, vec![("cpu".to_string(), 5)]);
    assert!(rows[0].error.is_none());
    assert_eq!(rows[1].name, "cdb-2");
    assert_eq!(rows[1].error.as_deref(), Some("boom"));
}
