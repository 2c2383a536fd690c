use apm_monitor::config::{Config, MetricDef};

#[test]
fn extracts_ids_from_cookie_stripping_console_affixes() {
    let c = Config {
        cookie: "other=1; uin=o765378326; ownerUin=O100012781415G".into(),
        ..Config::with_defaults()
    };
    let (uin, owner) = c.extract_ids_from_cookie();
    assert_eq!(uin, "765378326");
    assert_eq!(owner, "100012781415");
}

#[test]
fn extract_ids_is_empty_for_incomplete_cookie() {
    let c = Config { cookie: "other=1".into(), ..Config::with_defaults() };
    assert_eq!(c.extract_ids_from_cookie(), (String::new(), String::new()));
}

#[test]
fn session_ready_requires_cookie_ids_and_csrf() {
    let mut c = Config::with_defaults();
    assert!(!c.session_ready(), "空配置不该 ready");

    c.cookie = "uin=o1; ownerUin=O2G".into();
    assert!(!c.session_ready(), "缺 csrfCode 不该 ready");

    c.csrf_code = "t".into();
    assert!(c.session_ready());
}

#[test]
fn capi_csrf_is_bkn_of_skey() {
    let mut c = Config::with_defaults();
    c.cookie = "skey=JDf9UdfZDWrSYaYlU5lYZGoE3PwBB96Es4spg6UJf2U_; uin=o1".into();
    assert_eq!(c.capi_csrf(), "1732802354");
    c.cookie = "uin=o1".into();
    c.csrf_code = "12345".into();
    assert_eq!(c.capi_csrf(), "12345");
    c.csrf_code.clear();
    assert!(c.capi_csrf().is_empty());
}

#[test]
fn unknown_session_age_is_max() {
    let mut c = Config::with_defaults();
    c.session_fetched_at = 0;
    assert_eq!(c.session_age_secs(), i64::MAX);
}

#[test]
fn merge_user_config_keeps_disk_session_but_takes_user_fields() {
    let disk = Config {
        cookie: "disk-cookie".into(),
        csrf_code: "disk-csrf".into(),
        session_fetched_at: 12345,
        region: "ap-shanghai".into(),
        ..Config::with_defaults()
    };
    let incoming = Config {
        cookie: String::new(),
        csrf_code: String::new(),
        session_fetched_at: 0,
        region: "ap-beijing".into(),
        ..Config::with_defaults()
    };
    let merged = disk.merge_user_config(incoming);
    assert_eq!(merged.cookie, "disk-cookie");
    assert_eq!(merged.csrf_code, "disk-csrf");
    assert_eq!(merged.session_fetched_at, 12345);
    assert_eq!(merged.region, "ap-beijing", "用户配置要用前端最新的");
}

#[test]
fn apply_login_does_not_overwrite_with_empty_values() {
    let mut c = Config {
        cookie: "old-cookie".into(),
        csrf_code: "old-csrf".into(),
        ..Config::with_defaults()
    };
    let kept = c.apply_login(String::new(), String::new());
    assert_eq!(c.cookie, "old-cookie");
    assert_eq!(c.csrf_code, "old-csrf");
    assert_eq!(kept, vec!["cookie", "csrfCode"]);
    assert!(c.session_fetched_at > 0, "时间戳仍应更新");
}

#[test]
fn apply_login_takes_non_empty_values() {
    let mut c = Config::with_defaults();
    let kept = c.apply_login("new-cookie".into(), "new-csrf".into());
    assert_eq!(c.cookie, "new-cookie");
    assert_eq!(c.csrf_code, "new-csrf");
    assert!(kept.is_empty());
}

#[test]
fn defaults_match_the_documented_values() {
    let c = Config::with_defaults();
    assert_eq!(c.region, "ap-shanghai");
    assert_eq!(c.region_id, 4);
    assert_eq!(c.enabled_sources, vec!["container".to_string()]);
    assert_eq!(c.session_refresh_minutes, 10);
    assert_eq!(c.session_refresh_backoff_minutes, 2);
    assert_eq!(c.session_refresh_max_fails, 3);
    assert!(c.session_auto_refresh);
    assert!(c.cookie.is_empty());
    assert_eq!(c.session_fetched_at, 0);
}

#[test]
fn apply_login_at_records_the_given_time_and_blank_counts_as_empty() {
    let mut c = Config { cookie: "old".into(), csrf_code: "old-csrf".into(), ..Config::with_defaults() };
    let kept = c.apply_login_at("   ".into(), "new".into(), 77);
    assert_eq!(kept, vec!["cookie"]);
    assert_eq!(c.cookie, "old");
    assert_eq!(c.csrf_code, "new");
    assert_eq!(c.session_fetched_at, 77);
}

#[test]
fn merge_is_idempotent_on_the_session() {
    let disk = Config { cookie: "c".into(), csrf_code: "t".into(), session_fetched_at: 9, ..Config::with_defaults() };
    let user = Config { region: "ap-guangzhou".into(), cookie: "x".into(), ..Config::with_defaults() };
    let once = disk.merge_user_config(user);
    let twice = disk.merge_user_config(once);
    assert_eq!(twice.cookie, "c");
    assert_eq!(twice.csrf_code, "t");
    assert_eq!(twice.session_fetched_at, 9);
    assert_eq!(twice.region, "ap-guangzhou");
}

#[test]
fn session_age_counts_from_fetch_time() {
    let c = Config { session_fetched_at: 100, ..Config::with_defaults() };
    assert_eq!(c.session_age_at(160), 60);
    assert_eq!(c.session_age_at(50), 0);
}

#[test]
fn settle_loaded_falls_back_to_defaults() {
    let c = Config::settle_loaded(None);
    assert_eq!(c.region, "ap-shanghai");
    let custom = Config { region: "ap-beijing".into(), ..Config::with_defaults() };
    let c = Config::settle_loaded(Some(custom));
    assert_eq!(c.region, "ap-beijing");
}

#[test]
fn metric_def_default_is_a_service_metric() {
    let d = MetricDef::default();
    assert!(d.name.is_empty() && d.cn.is_empty());
    assert_eq!(d.view, "service_metric");
}

#[test]
fn console_cookie_form_gives_both_ids() {
    let c = Config { cookie: "uin=o42; ownerUin=O7G".into(), ..Config::with_defaults() };
    assert_eq!(c.extract_ids_from_cookie(), ("42".to_string(), "7".to_string()));
}
