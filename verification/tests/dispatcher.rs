use livy_manager::Action;
use livy_manager::AuthStep;
use livy_manager::ContentKind;
use livy_manager::INDEX;
use livy_manager::JobSession;
use livy_manager::KillStep;
use livy_manager::LOGIN;
use livy_manager::Method;
use livy_manager::Route;
use livy_manager::Status;
use livy_manager::UserSession;
use livy_manager::UserSessions;
use livy_manager::auth;
use livy_manager::auth_finish;
use livy_manager::call;
use livy_manager::get_sessions;
use livy_manager::get_user;
use livy_manager::get_user_session;
use livy_manager::get_uuid;
use livy_manager::index;
use livy_manager::kill_fetched;
use livy_manager::kill_finish;
use livy_manager::kill_precheck;
use livy_manager::login;
use livy_manager::logout;
use livy_manager::not_found;
use livy_manager::response_headers;
use livy_manager::route;

fn carol() -> UserSession {
    UserSession { uid: String::from("carol"), is_admin: false }
}

fn root() -> UserSession {
    UserSession { uid: String::from("root"), is_admin: true }
}

fn job(id: i64, proxy_user: Option<&str>) -> JobSession {
    JobSession {
        id,
        proxy_user: proxy_user.map(String::from),
        kind: String::from("spark"),
        state: String::from("idle"),
        app_id: None,
        log: Some(vec![String::from("line")]),
    }
}

#[test]
fn routing_table() {
    assert_eq!(route(Method::Get, "/"), Route::Index);
    assert_eq!(route(Method::Get, "/login"), Route::LoginPage);
    assert_eq!(route(Method::Post, "/login"), Route::LoginSubmit);
    assert_eq!(route(Method::Get, "/logout"), Route::Logout);
    assert_eq!(route(Method::Get, "/api/user"), Route::ApiUser);
    assert_eq!(route(Method::Get, "/api/user_session"), Route::ApiUser);
    assert_eq!(route(Method::Get, "/api/sessions"), Route::ApiSessions);
    assert_eq!(route(Method::Delete, "/api/sessions/5"), Route::ApiKill(5));
    assert_eq!(route(Method::Delete, "/api/sessions/007"), Route::ApiKill(7));
    assert_eq!(
        route(Method::Delete, "/api/sessions/9223372036854775807"),
        Route::ApiKill(9223372036854775807)
    );
}

#[test]
fn routing_rejects_what_does_not_match() {
    assert_eq!(route(Method::Get, "/nope"), Route::NotFound);
    assert_eq!(route(Method::Post, "/"), Route::NotFound);
    assert_eq!(route(Method::Delete, "/api/sessions/"), Route::NotFound);
    assert_eq!(route(Method::Delete, "/api/sessions/abc"), Route::NotFound);
    assert_eq!(route(Method::Delete, "/api/sessions/5x"), Route::NotFound);
    assert_eq!(route(Method::Delete, "/api/sessions"), Route::NotFound);
    assert_eq!(route(Method::Other, "/"), Route::NotFound);
}

#[test]
fn routing_rejects_overflowing_id_as_malformed() {
    assert_eq!(
        route(Method::Delete, "/api/sessions/9223372036854775808"),
        Route::KillTooLarge
    );
    assert_eq!(
        route(Method::Delete, "/api/sessions/999999999999999999999999"),
        Route::KillTooLarge
    );
}

#[test]
fn index_serves_page_or_redirects_to_login() {
    let r = index(false, None);
    assert_eq!(r.status, Status::Success);
    assert_eq!(r.body, INDEX);
    let u = carol();
    let r2 = index(true, Some(&u));
    assert_eq!(r2.status, Status::Success);
    let r3 = index(true, None);
    assert_eq!(r3.status, Status::TemporaryRedirect);
    assert_eq!(r3.location.as_deref(), Some("/login"));
    assert!(r3.set_cookie.unwrap().starts_with("_lmsid=; expires="));
}

#[test]
fn login_page_only_reachable_unauthenticated() {
    let r = login(true, None);
    assert_eq!(r.status, Status::Success);
    assert_eq!(r.body, LOGIN);
    let r2 = login(false, None);
    assert_eq!(r2.status, Status::TemporaryRedirect);
    assert_eq!(r2.location.as_deref(), Some("/"));
    assert!(r2.set_cookie.is_none());
    let u = carol();
    let r3 = login(true, Some(&u));
    assert_eq!(r3.status, Status::TemporaryRedirect);
    assert_eq!(r3.location.as_deref(), Some("/"));
}

#[test]
fn auth_disabled_or_established_redirects_home() {
    match auth(false, None, "uid=a&password=b") {
        AuthStep::Done(r) => {
            assert_eq!(r.status, Status::SeeOther);
            assert_eq!(r.location.as_deref(), Some("/"));
            assert!(r.set_cookie.is_none());
        },
        AuthStep::Check { .. } => panic!("login must be unreachable"),
    }
    let u = carol();
    match auth(true, Some(&u), "uid=a&password=b") {
        AuthStep::Done(r) => assert_eq!(r.location.as_deref(), Some("/")),
        AuthStep::Check { .. } => panic!("session must be preserved"),
    }
}

#[test]
fn auth_malformed_body_is_bad_request() {
    match auth(true, None, "nonsense") {
        AuthStep::Done(r) => assert_eq!(r.status, Status::BadRequest),
        AuthStep::Check { .. } => panic!("malformed body must not reach the directory"),
    }
}

#[test]
fn auth_parses_credentials() {
    match auth(true, None, "uid=carol&password=p%40ss") {
        AuthStep::Check { uid, password } => {
            assert_eq!(uid, "carol");
            assert_eq!(password, "p@ss");
        },
        AuthStep::Done(_) => panic!("well-formed credentials must be checked"),
    }
}

#[test]
fn auth_finish_rejection_redirects_failed() {
    let mut store = UserSessions::new();
    let r = auth_finish(&mut store, "carol", None);
    assert_eq!(r.status, Status::SeeOther);
    assert_eq!(r.location.as_deref(), Some("/login?result=failed"));
    assert_eq!(store.len(), 0);
}

#[test]
fn auth_finish_success_stores_token_and_sets_cookie() {
    let mut store = UserSessions::new();
    let r = auth_finish(&mut store, "carol", Some(0));
    assert_eq!(r.status, Status::SeeOther);
    assert_eq!(r.location.as_deref(), Some("/"));
    let cookie = r.set_cookie.expect("cookie must be set");
    let token = get_uuid(&vec![cookie]).expect("cookie must carry the token");
    let u = store.lookup(&token).expect("token must resolve");
    assert_eq!(u.uid, "carol");
    assert!(!u.is_admin);
    assert_eq!(store.len(), 1);
}

#[test]
fn auth_finish_one_admin_row_grants_privilege() {
    let mut store = UserSessions::new();
    let r = auth_finish(&mut store, "carol", Some(1));
    let token = get_uuid(&vec![r.set_cookie.unwrap()]).unwrap();
    assert!(store.lookup(&token).unwrap().is_admin);
    let mut store2 = UserSessions::new();
    let r2 = auth_finish(&mut store2, "carol", Some(2));
    let token2 = get_uuid(&vec![r2.set_cookie.unwrap()]).unwrap();
    assert!(!store2.lookup(&token2).unwrap().is_admin);
}

#[test]
fn logout_removes_resolved_token() {
    let mut store = UserSessions::new();
    assert!(store.insert(String::from("tok"), carol()).is_ok());
    let token = String::from("tok");
    let r = logout(true, Some(&token), &mut store);
    assert_eq!(r.status, Status::TemporaryRedirect);
    assert_eq!(r.location.as_deref(), Some("/login"));
    assert!(r.set_cookie.unwrap().starts_with("_lmsid=; expires="));
    assert!(store.lookup("tok").is_none());
}

#[test]
fn logout_disabled_mode_is_plain_redirect_home() {
    let mut store = UserSessions::new();
    let r = logout(false, None, &mut store);
    assert_eq!(r.status, Status::TemporaryRedirect);
    assert_eq!(r.location.as_deref(), Some("/"));
    assert!(r.set_cookie.is_none());
}

#[test]
fn get_user_modes() {
    let r = get_user(false, None);
    assert_eq!(r.status, Status::Success);
    assert_eq!(r.body, "null");
    let r2 = get_user(true, None);
    assert_eq!(r2.status, Status::Unauthorized);
    assert_eq!(r2.body, "");
    let u = carol();
    let r3 = get_user(true, Some(&u));
    assert_eq!(r3.status, Status::Success);
    assert_eq!(r3.content_type, ContentKind::Json);
    assert_eq!(r3.body, "{\"uid\":\"carol\",\"is_admin\":false}");
}

#[test]
fn sessions_disabled_mode_serves_all_logs_stripped() {
    let upstream = vec![job(1, Some("alice")), job(2, Some("bob"))];
    let r = get_sessions(false, None, Some(&upstream));
    assert_eq!(r.status, Status::Success);
    assert_eq!(r.content_type, ContentKind::Json);
    let expected = "[{\"id\":1,\"proxyUser\":\"alice\",\"kind\":\"spark\",\"state\":\"idle\",\"appId\":null,\"log\":null},{\"id\":2,\"proxyUser\":\"bob\",\"kind\":\"spark\",\"state\":\"idle\",\"appId\":null,\"log\":null}]";
    assert_eq!(r.body, expected);
}

#[test]
fn sessions_nonprivileged_sees_only_own() {
    let upstream = vec![job(5, Some("carol")), job(6, Some("dave"))];
    let u = carol();
    let r = get_sessions(true, Some(&u), Some(&upstream));
    assert_eq!(r.status, Status::Success);
    let expected = "[{\"id\":5,\"proxyUser\":\"carol\",\"kind\":\"spark\",\"state\":\"idle\",\"appId\":null,\"log\":null}]";
    assert_eq!(r.body, expected);
}

#[test]
fn sessions_unauthenticated_is_unauthorized() {
    let upstream = vec![job(1, Some("alice"))];
    let r = get_sessions(true, None, Some(&upstream));
    assert_eq!(r.status, Status::Unauthorized);
    assert_eq!(r.body, "");
}

#[test]
fn sessions_upstream_failure_is_internal_error_without_detail() {
    let r = get_sessions(false, None, None);
    assert_eq!(r.status, Status::InternalError);
    assert_eq!(r.body, "");
}

#[test]
fn kill_precheck_modes() {
    assert!(matches!(kill_precheck(false, None), KillStep::Kill));
    match kill_precheck(true, None) {
        KillStep::Respond(r) => assert_eq!(r.status, Status::Unauthorized),
        _ => panic!("unauthenticated kill must be refused"),
    }
    let a = root();
    assert!(matches!(kill_precheck(true, Some(&a)), KillStep::Kill));
    let u = carol();
    assert!(matches!(kill_precheck(true, Some(&u)), KillStep::Fetch));
}

#[test]
fn kill_fetched_owner_rules() {
    let u = carol();
    let own = job(5, Some("carol"));
    assert!(matches!(kill_fetched(&u, Some(&own)), KillStep::Kill));
    let other = job(6, Some("dave"));
    match kill_fetched(&u, Some(&other)) {
        KillStep::Respond(r) => assert_eq!(r.status, Status::Unauthorized),
        _ => panic!("another user's session must be protected"),
    }
    match kill_fetched(&u, None) {
        KillStep::Respond(r) => assert_eq!(r.status, Status::Unauthorized),
        _ => panic!("a failed fetch must refuse the kill"),
    }
}

#[test]
fn kill_finish_outcomes() {
    let ok = kill_finish(true);
    assert_eq!(ok.status, Status::Success);
    assert_eq!(ok.body, "{}");
    assert_eq!(ok.content_type, ContentKind::Json);
    let bad = kill_finish(false);
    assert_eq!(bad.status, Status::InternalError);
    assert_eq!(bad.body, "");
}

#[test]
fn not_found_is_empty_404() {
    let r = not_found();
    assert_eq!(r.status, Status::NotFound);
    assert_eq!(r.body, "");
}

#[test]
fn headers_always_forbid_caching() {
    let r = not_found();
    let hs = response_headers(&r);
    assert_eq!(hs[0].0, "Cache-Control");
    assert_eq!(hs[0].1, "no-store, no-cache, must-revalidate, private");
    assert_eq!(hs[1].0, "Connection");
    assert_eq!(hs[1].1, "keep-alive");
    assert_eq!(hs[2].0, "Content-Type");
    assert_eq!(hs[2].1, "text/html; charset=utf-8");
    assert_eq!(hs.len(), 3);
}

#[test]
fn headers_carry_location_and_cookie() {
    let mut store = UserSessions::new();
    let r = auth_finish(&mut store, "carol", Some(0));
    let hs = response_headers(&r);
    assert_eq!(hs.len(), 5);
    assert_eq!(hs[3].0, "Location");
    assert_eq!(hs[3].1, "/");
    assert_eq!(hs[4].0, "Set-Cookie");
    assert!(hs[4].1.starts_with("_lmsid="));
}

#[test]
fn resolve_identity_from_cookie() {
    let mut store = UserSessions::new();
    assert!(store.insert(String::from("tok"), carol()).is_ok());
    let hs = vec![String::from("_lmsid=tok")];
    let u = get_user_session(true, &store, &hs).expect("token must resolve");
    assert_eq!(u.uid, "carol");
    assert!(get_user_session(false, &store, &hs).is_none());
    let unknown = vec![String::from("_lmsid=other")];
    assert!(get_user_session(true, &store, &unknown).is_none());
    assert!(get_user_session(true, &store, &Vec::new()).is_none());
}

#[test]
fn unauthenticated_delete_never_reaches_upstream() {
    let mut store = UserSessions::new();
    let action = call(true, &mut store, Method::Delete, "/api/sessions/5", &Vec::new(), "");
    match action {
        Action::Respond(r) => assert_eq!(r.status, Status::Unauthorized),
        _ => panic!("the upstream kill must never be invoked"),
    }
}

#[test]
fn malformed_cookie_falls_back_to_unauthenticated() {
    let mut store = UserSessions::new();
    let hs = vec![String::from("_lmsid")];
    let action = call(true, &mut store, Method::Get, "/", &hs, "");
    match action {
        Action::Respond(r) => {
            assert_eq!(r.status, Status::TemporaryRedirect);
            assert_eq!(r.location.as_deref(), Some("/login"));
        },
        _ => panic!("the index needs no upstream call"),
    }
}

#[test]
fn dispatcher_names_the_upstream_calls() {
    let mut store = UserSessions::new();
    assert!(matches!(
        call(false, &mut store, Method::Get, "/api/sessions", &Vec::new(), ""),
        Action::FetchSessions
    ));
    assert!(matches!(
        call(false, &mut store, Method::Delete, "/api/sessions/5", &Vec::new(), ""),
        Action::Kill { id: 5 }
    ));
    assert!(store.insert(String::from("tok"), carol()).is_ok());
    let hs = vec![String::from("_lmsid=tok")];
    assert!(matches!(
        call(true, &mut store, Method::Delete, "/api/sessions/5", &hs, ""),
        Action::FetchSession { id: 5 }
    ));
    assert!(store.insert(String::from("admtok"), root()).is_ok());
    let ahs = vec![String::from("_lmsid=admtok")];
    assert!(matches!(
        call(true, &mut store, Method::Delete, "/api/sessions/5", &ahs, ""),
        Action::Kill { id: 5 }
    ));
    match call(true, &mut store, Method::Post, "/login", &Vec::new(), "uid=a&password=b") {
        Action::Authenticate { uid, password } => {
            assert_eq!(uid, "a");
            assert_eq!(password, "b");
        },
        _ => panic!("credentials must go to the directory"),
    }
}

#[test]
fn dispatcher_logout_removes_session() {
    let mut store = UserSessions::new();
    assert!(store.insert(String::from("tok"), carol()).is_ok());
    let hs = vec![String::from("_lmsid=tok")];
    let action = call(true, &mut store, Method::Get, "/logout", &hs, "");
    match action {
        Action::Respond(r) => {
            assert_eq!(r.status, Status::TemporaryRedirect);
            assert_eq!(r.location.as_deref(), Some("/login"));
        },
        _ => panic!("logout needs no upstream call"),
    }
    assert!(store.lookup("tok").is_none());
}

#[test]
fn dispatcher_oversized_id_is_bad_request() {
    let mut store = UserSessions::new();
    let action = call(
        false,
        &mut store,
        Method::Delete,
        "/api/sessions/9223372036854775808",
        &Vec::new(),
        "",
    );
    match action {
        Action::Respond(r) => assert_eq!(r.status, Status::BadRequest),
        _ => panic!("a malformed id must fail the request"),
    }
}

#[test]
fn login_then_listing_shows_only_own_sessions() {
    let mut store = UserSessions::new();
    let resp = auth_finish(&mut store, "carol", Some(0));
    let cookie = resp.set_cookie.expect("cookie must be set");
    let hs = vec![cookie];
    let action = call(true, &mut store, Method::Get, "/api/sessions", &hs, "");
    assert!(matches!(action, Action::FetchSessions));
    let upstream = vec![job(5, Some("carol")), job(6, Some("dave"))];
    let user = get_user_session(true, &store, &hs);
    let r = get_sessions(true, user.as_ref(), Some(&upstream));
    assert_eq!(r.status, Status::Success);
    let expected = "[{\"id\":5,\"proxyUser\":\"carol\",\"kind\":\"spark\",\"state\":\"idle\",\"appId\":null,\"log\":null}]";
    assert_eq!(r.body, expected);
}

#[test]
fn dispatcher_unmatched_route_is_not_found() {
    let mut store = UserSessions::new();
    let action = call(false, &mut store, Method::Get, "/nope", &Vec::new(), "");
    match action {
        Action::Respond(r) => assert_eq!(r.status, Status::NotFound),
        _ => panic!("an unmatched route needs no upstream call"),
    }
}
