use livy_manager::JobSession;
use livy_manager::UserSession;
use livy_manager::UserSessions;
use livy_manager::filter_sessions;
use livy_manager::has_kill_session_authority;
use livy_manager::render_sessions;
use livy_manager::render_user;

fn job(id: i64, proxy_user: Option<&str>, log: Option<Vec<&str>>) -> JobSession {
    JobSession {
        id,
        proxy_user: proxy_user.map(String::from),
        kind: String::from("spark"),
        state: String::from("idle"),
        app_id: None,
        log: log.map(|lines| lines.into_iter().map(String::from).collect()),
    }
}

fn carol() -> UserSession {
    UserSession { uid: String::from("carol"), is_admin: false }
}

fn root() -> UserSession {
    UserSession { uid: String::from("root"), is_admin: true }
}

#[test]
fn store_insert_lookup_remove_consistent() {
    let mut store = UserSessions::new();
    assert!(store.lookup("t1").is_none());
    assert!(store.insert(String::from("t1"), carol()).is_ok());
    let got = store.lookup("t1").unwrap();
    assert_eq!(got.uid, "carol");
    assert!(!got.is_admin);
    store.remove("t1");
    assert!(store.lookup("t1").is_none());
}

#[test]
fn store_remove_absent_is_noop() {
    let mut store = UserSessions::new();
    assert!(store.insert(String::from("t1"), carol()).is_ok());
    store.remove("other");
    assert_eq!(store.len(), 1);
    assert!(store.lookup("t1").is_some());
}

#[test]
fn store_insert_conflict_keeps_first() {
    let mut store = UserSessions::new();
    assert!(store.insert(String::from("t1"), carol()).is_ok());
    assert!(store.insert(String::from("t1"), root()).is_err());
    let got = store.lookup("t1").unwrap();
    assert_eq!(got.uid, "carol");
    assert_eq!(store.len(), 1);
}

#[test]
fn store_contains_tracks_keys() {
    let mut store = UserSessions::new();
    assert!(!store.contains("t1"));
    assert!(store.insert(String::from("t1"), carol()).is_ok());
    assert!(store.contains("t1"));
    store.remove("t1");
    assert!(!store.contains("t1"));
}

#[test]
fn store_two_tokens_same_subject() {
    let mut store = UserSessions::new();
    assert!(store.insert(String::from("t1"), carol()).is_ok());
    assert!(store.insert(String::from("t2"), carol()).is_ok());
    assert_eq!(store.len(), 2);
    assert_eq!(store.lookup("t2").unwrap().uid, "carol");
}

#[test]
fn disabled_mode_lists_everything_logs_stripped() {
    let all = vec![
        job(1, Some("alice"), Some(vec!["line one"])),
        job(2, Some("bob"), None),
    ];
    let visible = filter_sessions(false, None, &all);
    assert_eq!(visible.len(), 2);
    assert_eq!(visible[0].id, 1);
    assert_eq!(visible[1].id, 2);
    assert!(visible[0].log.is_none());
    assert!(visible[1].log.is_none());
}

#[test]
fn nonprivileged_sees_only_own_sessions() {
    let all = vec![
        job(5, Some("carol"), Some(vec!["secret"])),
        job(6, Some("dave"), None),
        job(7, None, None),
    ];
    let u = carol();
    let visible = filter_sessions(true, Some(&u), &all);
    assert_eq!(visible.len(), 1);
    assert_eq!(visible[0].id, 5);
    assert_eq!(visible[0].proxy_user.as_deref(), Some("carol"));
    assert!(visible[0].log.is_none());
}

#[test]
fn privileged_sees_everything_logs_stripped() {
    let all = vec![
        job(5, Some("carol"), Some(vec!["secret"])),
        job(6, Some("dave"), Some(vec!["x"])),
        job(7, None, None),
    ];
    let u = root();
    let visible = filter_sessions(true, Some(&u), &all);
    assert_eq!(visible.len(), 3);
    assert!(visible.iter().all(|s| s.log.is_none()));
}

#[test]
fn unauthenticated_filter_sees_nothing() {
    let all = vec![job(5, Some("carol"), None)];
    let visible = filter_sessions(true, None, &all);
    assert_eq!(visible.len(), 0);
}

#[test]
fn kill_disabled_mode_allows_all() {
    assert!(has_kill_session_authority(false, None, None));
}

#[test]
fn kill_unauthenticated_is_refused() {
    let target = job(5, Some("carol"), None);
    assert!(!has_kill_session_authority(true, None, Some(&target)));
    assert!(!has_kill_session_authority(true, None, None));
}

#[test]
fn kill_admin_may_kill_anything() {
    let u = root();
    assert!(has_kill_session_authority(true, Some(&u), None));
    let target = job(5, Some("dave"), None);
    assert!(has_kill_session_authority(true, Some(&u), Some(&target)));
}

#[test]
fn kill_owner_may_kill_own_session_only() {
    let u = carol();
    let own = job(5, Some("carol"), None);
    let other = job(6, Some("dave"), None);
    let unowned = job(7, None, None);
    assert!(has_kill_session_authority(true, Some(&u), Some(&own)));
    assert!(!has_kill_session_authority(true, Some(&u), Some(&other)));
    assert!(!has_kill_session_authority(true, Some(&u), Some(&unowned)));
}

#[test]
fn kill_failed_fetch_is_refused_for_nonprivileged() {
    let u = carol();
    assert!(!has_kill_session_authority(true, Some(&u), None));
}

#[test]
fn render_user_absent_is_null() {
    assert_eq!(render_user(None), "null");
}

#[test]
fn render_user_fields() {
    let u = carol();
    assert_eq!(render_user(Some(&u)), "{\"uid\":\"carol\",\"is_admin\":false}");
    let a = root();
    assert_eq!(render_user(Some(&a)), "{\"uid\":\"root\",\"is_admin\":true}");
}

#[test]
fn render_user_escapes_json() {
    let u = UserSession { uid: String::from("a\"b\\c\nd"), is_admin: false };
    assert_eq!(
        render_user(Some(&u)),
        "{\"uid\":\"a\\\"b\\\\c\\nd\",\"is_admin\":false}"
    );
}

#[test]
fn render_sessions_exact_json() {
    let all = vec![
        JobSession {
            id: 1,
            proxy_user: Some(String::from("alice")),
            kind: String::from("spark"),
            state: String::from("idle"),
            app_id: None,
            log: None,
        },
        JobSession {
            id: -2,
            proxy_user: None,
            kind: String::from("pyspark"),
            state: String::from("busy"),
            app_id: Some(String::from("app-2")),
            log: Some(vec![String::from("l1"), String::from("l2")]),
        },
    ];
    let expected = "[{\"id\":1,\"proxyUser\":\"alice\",\"kind\":\"spark\",\"state\":\"idle\",\"appId\":null,\"log\":null},{\"id\":-2,\"proxyUser\":null,\"kind\":\"pyspark\",\"state\":\"busy\",\"appId\":\"app-2\",\"log\":[\"l1\",\"l2\"]}]";
    assert_eq!(render_sessions(&all), expected);
}

#[test]
fn render_sessions_empty_list() {
    assert_eq!(render_sessions(&Vec::new()), "[]");
}
