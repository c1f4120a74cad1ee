//! The request dispatcher: routes a (method, path) pair, resolves the
//! caller's identity from the cookie and the session store, runs every
//! decision this layer can take on its own, and names the one upstream
//! call (directory bind, session list, session fetch, session kill) that
//! the surrounding process must make before the response can be finished.

use vstd::prelude::*;

use crate::cookie::clear_cookie_ok;
use crate::cookie::extract_spec;
use crate::cookie::set_cookie_ok;
use crate::cookie::valid_token;
use crate::form::parse_form_spec;
use crate::frontend::INDEX;
use crate::frontend::LOGIN;
use crate::http::ContentKind;
use crate::http::HttpResponse;
use crate::http::ResponseView;
use crate::http::Status;
use crate::http::response;
use crate::jobs::JobSession;
use crate::jobs::job_views;
use crate::jobs::kill_allowed;
use crate::jobs::user_view;
use crate::json::sessions_json;
use crate::json::user_json;
use crate::session::UserSession;
use crate::session::UserSessionView;
use crate::store::UserSessions;

verus! {

/// Method of a request, as far as this layer distinguishes them.
#[derive(Clone, Copy, PartialEq, Eq, Structural, Debug)]
pub enum Method {
    Get,
    Post,
    Delete,
    Other,
}

/// Where a request goes.
#[derive(Clone, Copy, PartialEq, Eq, Structural, Debug)]
pub enum Route {
    Index,
    LoginPage,
    LoginSubmit,
    Logout,
    ApiUser,
    ApiSessions,
    ApiKill(i64),
    KillTooLarge,
    NotFound,
}

/// A decimal digit.
pub open spec fn digit_char(c: char) -> bool {
    ('0' as u32) <= (c as u32) <= ('9' as u32)
}

/// A non-empty run of decimal digits.
pub open spec fn all_digits(s: Seq<char>) -> bool {
    s.len() > 0 && forall|i: int| 0 <= i < s.len() ==> digit_char(#[trigger] s[i])
}

/// The number the digits spell, most significant first.
pub open spec fn digits_value(s: Seq<char>) -> int
    decreases s.len(),
{
    if s.len() == 0 {
        0
    } else {
        digits_value(s.drop_last()) * 10 + ((s.last() as u32) - ('0' as u32))
    }
}

/// A kill path: `/api/sessions/` followed by digits alone.
pub open spec fn is_kill_path(path: Seq<char>) -> bool {
    path.len() > 14 && path.take(14) == "/api/sessions/"@ && all_digits(path.skip(14))
}

/// Where a (method, path) pair goes: the exact routes first, then the one
/// parametric route, whose id must be digits that fit a signed 64-bit
/// number -- digits too large for it are refused as malformed.
pub open spec fn route_spec(m: Method, path: Seq<char>) -> Route {
    if m == Method::Get && path == "/"@ {
        Route::Index
    } else if m == Method::Get && path == "/login"@ {
        Route::LoginPage
    } else if m == Method::Post && path == "/login"@ {
        Route::LoginSubmit
    } else if m == Method::Get && path == "/logout"@ {
        Route::Logout
    } else if m == Method::Get && (path == "/api/user"@ || path == "/api/user_session"@) {
        Route::ApiUser
    } else if m == Method::Get && path == "/api/sessions"@ {
        Route::ApiSessions
    } else if m == Method::Delete && is_kill_path(path) {
        if digits_value(path.skip(14)) <= 0x7fff_ffff_ffff_ffff {
            Route::ApiKill(digits_value(path.skip(14)) as i64)
        } else {
            Route::KillTooLarge
        }
    } else {
        Route::NotFound
    }
}

/// Routes one request.
pub fn route(m: Method, path: &str) -> (r: Route)
    ensures
        r == route_spec(m, path@),
{
    match m {
        Method::Get => {
            if crate::text::str_eq(path, "/") {
                Route::Index
            } else if crate::text::str_eq(path, "/login") {
                Route::LoginPage
            } else if crate::text::str_eq(path, "/logout") {
                Route::Logout
            } else if crate::text::str_eq(path, "/api/user") {
                Route::ApiUser
            } else if crate::text::str_eq(path, "/api/user_session") {
                Route::ApiUser
            } else if crate::text::str_eq(path, "/api/sessions") {
                Route::ApiSessions
            } else {
                Route::NotFound
            }
        },
        Method::Post => {
            if crate::text::str_eq(path, "/login") {
                Route::LoginSubmit
            } else {
                Route::NotFound
            }
        },
        Method::Delete => route_kill(path),
        Method::Other => Route::NotFound,
    }
}

/// Routes a DELETE request: only the kill pattern matches.
fn route_kill(path: &str) -> (r: Route)
    ensures
        r == route_spec(Method::Delete, path@),
{
    let v = crate::text::to_chars(path);
    let n = v.len();
    if n <= 14 {
        return Route::NotFound;
    }
    if !crate::text::range_eq_str(&v, 0, 14, "/api/sessions/") {
        proof {
            assert(v@.subrange(0, 14) =~= path@.take(14));
        }
        return Route::NotFound;
    }
    proof {
        assert(v@.subrange(0, 14) =~= path@.take(14));
    }
    let ghost digits = path@.skip(14);
    let mut j: usize = 14;
    let mut val: u64 = 0;
    let mut over = false;
    while j < n
        invariant
            14 <= j <= n,
            n == v@.len(),
            v@ == path@,
            digits == path@.skip(14),
            forall|i: int| 14 <= i < j ==> digit_char(#[trigger] v@[i]),
            !over ==> val <= 0x7fff_ffff_ffff_ffff && val == digits_value(
                digits.take(j - 14),
            ),
            over ==> digits_value(digits.take(j - 14)) > 0x7fff_ffff_ffff_ffff,
        decreases n - j,
    {
        let c = v[j];
        let d: u32 = c as u32;
        if d < 48 || d > 57 {
            proof {
                assert(!digit_char(path@.skip(14)[j - 14]));
            }
            return Route::NotFound;
        }
        let dd: u64 = (d - 48) as u64;
        let ghost prev = digits.take(j - 14);
        proof {
            assert(digits.take(j - 13).drop_last() =~= prev);
            assert(digits.take(j - 13).last() == v@[j as int]);
        }
        if !over {
            if val > (0x7fff_ffff_ffff_ffffu64 - dd) / 10 {
                over = true;
                proof {
                    let m: int = 0x7fff_ffff_ffff_ffff;
                    assert(digits_value(digits.take(j - 13)) == digits_value(prev) * 10
                        + dd);
                    assert(val * 10 + dd > m) by (nonlinear_arith)
                        requires
                            val > (m - dd) / 10,
                            0 <= dd < 10,
                            m == 0x7fff_ffff_ffff_ffff,
                            val >= 0,
                    ;
                }
            } else {
                val = val * 10 + dd;
                proof {
                    assert(digits_value(digits.take(j - 13)) == digits_value(prev) * 10
                        + dd);
                }
            }
        } else {
            proof {
                assert(digits_value(digits.take(j - 13)) == digits_value(prev) * 10 + dd);
                assert(digits_value(prev) * 10 + dd > 0x7fff_ffff_ffff_ffff);
            }
        }
        j = j + 1;
    }
    proof {
        assert(digits.take(n - 14) =~= digits);
        assert(all_digits(path@.skip(14)));
        assert(is_kill_path(path@));
    }
    if over {
        Route::KillTooLarge
    } else {
        Route::ApiKill(val as i64)
    }
}

/// The identity a request resolves to: none with authentication disabled,
/// else the store's entry for the extracted token, if both exist.
pub open spec fn resolved_user_spec(
    auth_enabled: bool,
    store: Map<Seq<char>, UserSessionView>,
    hs: Seq<Seq<char>>,
) -> Option<UserSessionView> {
    if !auth_enabled {
        None
    } else {
        match extract_spec(hs) {
            Some(t) => if store.dom().contains(t) {
                Some(store[t])
            } else {
                None
            },
            None => None,
        }
    }
}

/// Resolves the caller's identity before any handler runs: extracts the
/// token from the `Cookie` headers and looks it up. A missing or unknown
/// token resolves to no identity, never to an error.
pub fn get_user_session(
    auth_enabled: bool,
    store: &UserSessions,
    cookie_headers: &Vec<String>,
) -> (r: Option<UserSession>)
    requires
        store.wf(),
    ensures
        (match r {
            Some(u) => Some(u@),
            None => None::<UserSessionView>,
        }) == resolved_user_spec(
            auth_enabled,
            store@,
            cookie_headers@.map_values(|h: String| h@),
        ),
{
    if !auth_enabled {
        return None;
    }
    match crate::cookie::get_uuid(cookie_headers) {
        Some(t) => store.lookup(t.as_str()),
        None => None,
    }
}

/// An empty-bodied response.
fn empty_response(status: Status) -> (r: HttpResponse)
    ensures
        r@.status == status,
        r@.content_type == ContentKind::Html,
        r@.body.len() == 0,
        r@.location is None,
        r@.set_cookie is None,
{
    HttpResponse {
        status,
        content_type: ContentKind::Html,
        body: String::new(),
        location: None,
        set_cookie: None,
    }
}

/// A redirect that leaves the client's cookie untouched.
fn redirect_keep(status: Status, path: &str) -> (r: HttpResponse)
    ensures
        r@.status == status,
        r@.content_type == ContentKind::Html,
        r@.body.len() == 0,
        r@.location == Some(path@),
        r@.set_cookie is None,
{
    HttpResponse {
        status,
        content_type: ContentKind::Html,
        body: String::new(),
        location: Some(String::from_str(path)),
        set_cookie: None,
    }
}

/// A redirect that clears the session cookie.
fn redirect_clear(status: Status, path: &str) -> (r: HttpResponse)
    ensures
        r@.status == status,
        r@.content_type == ContentKind::Html,
        r@.body.len() == 0,
        r@.location == Some(path@),
        r@.set_cookie matches Some(c) && clear_cookie_ok(c),
{
    HttpResponse {
        status,
        content_type: ContentKind::Html,
        body: String::new(),
        location: Some(String::from_str(path)),
        set_cookie: Some(crate::cookie::clear_cookie()),
    }
}

/// A redirect that stores `token` in the session cookie.
fn redirect_store(status: Status, path: &str, token: &str) -> (r: HttpResponse)
    ensures
        r@.status == status,
        r@.content_type == ContentKind::Html,
        r@.body.len() == 0,
        r@.location == Some(path@),
        r@.set_cookie matches Some(c) && set_cookie_ok(token@, c),
{
    HttpResponse {
        status,
        content_type: ContentKind::Html,
        body: String::new(),
        location: Some(String::from_str(path)),
        set_cookie: Some(crate::cookie::set_cookie(token)),
    }
}

/// An empty unauthorized response.
pub open spec fn unauthorized_resp(rv: ResponseView) -> bool {
    rv.status == Status::Unauthorized && rv.body.len() == 0 && rv.location is None
        && rv.set_cookie is None
}

/// An empty bad-request response.
pub open spec fn bad_request_resp(rv: ResponseView) -> bool {
    rv.status == Status::BadRequest && rv.body.len() == 0 && rv.location is None
        && rv.set_cookie is None
}

/// An empty not-found response.
pub open spec fn not_found_resp(rv: ResponseView) -> bool {
    rv.status == Status::NotFound && rv.body.len() == 0 && rv.location is None
        && rv.set_cookie is None
}

/// An empty internal-error response: nothing of the failure leaks to the
/// caller.
pub open spec fn internal_error_resp(rv: ResponseView) -> bool {
    rv.status == Status::InternalError && rv.body.len() == 0 && rv.location is None
        && rv.set_cookie is None
}

/// The idempotent redirect home, session untouched.
pub open spec fn home_redirect_resp(status: Status, rv: ResponseView) -> bool {
    rv.status == status && rv.location == Some("/"@) && rv.body.len() == 0
        && rv.set_cookie is None
}

/// What `GET /` serves: the index page, or -- for an unauthenticated
/// caller while the directory is configured -- a redirect to the login
/// page that also clears the cookie.
pub open spec fn index_resp_ok(
    auth_enabled: bool,
    uv: Option<UserSessionView>,
    rv: ResponseView,
) -> bool {
    if auth_enabled && uv is None {
        rv.status == Status::TemporaryRedirect && rv.location == Some("/login"@) && rv.body.len()
            == 0 && (rv.set_cookie matches Some(c) && clear_cookie_ok(c))
    } else {
        rv.status == Status::Success && rv.content_type == ContentKind::Html && rv.body == INDEX@
            && rv.location is None && rv.set_cookie is None
    }
}

/// What `GET /login` serves: the login page in the one mode where it is
/// reachable, otherwise the redirect home.
pub open spec fn login_resp_ok(
    auth_enabled: bool,
    uv: Option<UserSessionView>,
    rv: ResponseView,
) -> bool {
    if auth_enabled && uv is None {
        rv.status == Status::Success && rv.content_type == ContentKind::Html && rv.body == LOGIN@
            && rv.location is None && rv.set_cookie is None
    } else {
        home_redirect_resp(Status::TemporaryRedirect, rv)
    }
}

/// What `GET /logout` does to the response: home with the session kept
/// when authentication is disabled; otherwise to the login page with the
/// cookie cleared unconditionally.
pub open spec fn logout_resp_ok(auth_enabled: bool, rv: ResponseView) -> bool {
    if !auth_enabled {
        home_redirect_resp(Status::TemporaryRedirect, rv)
    } else {
        rv.status == Status::TemporaryRedirect && rv.location == Some("/login"@) && rv.body.len()
            == 0 && (rv.set_cookie matches Some(c) && clear_cookie_ok(c))
    }
}

/// What `GET /api/user` serves: the caller's identity as JSON (`null`
/// when authentication is disabled), or unauthorized.
pub open spec fn user_resp_ok(
    auth_enabled: bool,
    uv: Option<UserSessionView>,
    rv: ResponseView,
) -> bool {
    if auth_enabled && uv is None {
        unauthorized_resp(rv)
    } else {
        rv.status == Status::Success && rv.content_type == ContentKind::Json && rv.body
            == user_json(uv) && rv.location is None && rv.set_cookie is None
    }
}

/// The redirect after a failed login attempt.
pub open spec fn failed_login_resp(rv: ResponseView) -> bool {
    rv.status == Status::SeeOther && rv.location == Some("/login?result=failed"@) && rv.body.len()
        == 0 && rv.set_cookie is None
}

/// A successful login: a fresh valid token not previously in the store now
/// maps to the authenticated identity, and the response sends the caller
/// home carrying that token in the cookie.
pub open spec fn login_success(
    old_map: Map<Seq<char>, UserSessionView>,
    new_map: Map<Seq<char>, UserSessionView>,
    u: UserSessionView,
    t: Seq<char>,
    rv: ResponseView,
) -> bool {
    valid_token(t) && !old_map.dom().contains(t) && new_map == old_map.insert(t, u) && rv.status
        == Status::SeeOther && rv.location == Some("/"@) && rv.body.len() == 0 && (
    rv.set_cookie matches Some(c) && set_cookie_ok(t, c))
}

/// `GET /`.
pub fn index(auth_enabled: bool, user: Option<&UserSession>) -> (r: HttpResponse)
    ensures
        index_resp_ok(auth_enabled, user_view(user), r@),
{
    if auth_enabled && user.is_none() {
        redirect_clear(Status::TemporaryRedirect, "/login")
    } else {
        response(Status::Success, INDEX, ContentKind::Html)
    }
}

/// `GET /login`.
pub fn login(auth_enabled: bool, user: Option<&UserSession>) -> (r: HttpResponse)
    ensures
        login_resp_ok(auth_enabled, user_view(user), r@),
{
    if auth_enabled && user.is_none() {
        response(Status::Success, LOGIN, ContentKind::Html)
    } else {
        redirect_keep(Status::TemporaryRedirect, "/")
    }
}

/// What `POST /login` decides before any directory call.
pub enum AuthStep {
    Done(HttpResponse),
    Check { uid: String, password: String },
}

/// `POST /login`, up to the directory: with authentication disabled or a
/// session already established, the idempotent redirect home; a body
/// without both fields is malformed; otherwise the credentials to check.
pub fn auth(auth_enabled: bool, user: Option<&UserSession>, body: &str) -> (r: AuthStep)
    ensures
        (!auth_enabled || user is Some) ==> (r matches AuthStep::Done(resp)
            && home_redirect_resp(Status::SeeOther, resp@)),
        (auth_enabled && user is None) ==> match parse_form_spec(body@) {
            Some(p) => (r matches AuthStep::Check { uid, password } && uid@ == p.0 && password@
                == p.1),
            None => (r matches AuthStep::Done(resp) && bad_request_resp(resp@)),
        },
{
    if !auth_enabled || user.is_some() {
        return AuthStep::Done(redirect_keep(Status::SeeOther, "/"));
    }
    match crate::form::extract_uid_password(body) {
        Some(pair) => AuthStep::Check { uid: pair.0, password: pair.1 },
        None => AuthStep::Done(empty_response(Status::BadRequest)),
    }
}

/// No key of the store has the shape of a freshly issued token (a valid
/// 36-character value), so no draw of the token generator can collide.
/// Holds in particular of the empty store.
pub open spec fn no_token_shaped_key(m: Map<Seq<char>, UserSessionView>) -> bool {
    forall|t: Seq<char>| m.dom().contains(t) ==> !(valid_token(t) && t.len() == 36)
}

/// `POST /login`, after the directory answered. `admin_rows` carries the
/// number of rows the admin-group membership search returned, or nothing
/// when the bind was rejected or the directory unreachable. On acceptance
/// a fresh token is issued and stored (regenerated on the rare collision;
/// after too many collisions the attempt fails like a rejection), and the
/// caller goes home with the cookie set. Failure on an accepted answer is
/// possible only through collisions: where no stored key could collide,
/// success is owed.
pub fn auth_finish(store: &mut UserSessions, uid: &str, admin_rows: Option<usize>) -> (r:
    HttpResponse)
    requires
        old(store).wf(),
    ensures
        final(store).wf(),
        admin_rows is None ==> final(store)@ == old(store)@ && failed_login_resp(r@),
        admin_rows matches Some(rows) ==> ((exists|t: Seq<char>, u: UserSessionView|
            #[trigger] login_success(old(store)@, final(store)@, u, t, r@) && u == (
            UserSessionView { uid: uid@, is_admin: rows == 1 })) || (final(store)@ == old(store)@
            && failed_login_resp(r@))),
        admin_rows matches Some(rows) ==> (no_token_shaped_key(old(store)@) ==> (exists|
            t: Seq<char>,
            u: UserSessionView,
        |
            #[trigger] login_success(old(store)@, final(store)@, u, t, r@) && u == (
            UserSessionView { uid: uid@, is_admin: rows == 1 }))),
{
    let rows = match admin_rows {
        Some(rows) => rows,
        None => {
            return redirect_keep(Status::SeeOther, "/login?result=failed");
        },
    };
    let mut attempts: usize = 0;
    while attempts < 3
        invariant
            old(store).wf(),
            store.wf(),
            store@ == old(store)@,
            admin_rows == Some(rows),
            attempts <= 3,
            attempts > 0 ==> !no_token_shaped_key(old(store)@),
        decreases 3 - attempts,
    {
        let t = crate::cookie::issue();
        let user = crate::session::directory_identity(uid, rows);
        match store.insert(t.clone(), user) {
            Ok(_) => {
                let r = redirect_store(Status::SeeOther, "/", t.as_str());
                proof {
                    assert(user@ == (UserSessionView { uid: uid@, is_admin: rows == 1 }));
                    assert(login_success(old(store)@, store@, user@, t@, r@));
                }
                return r;
            },
            Err(_) => {
                proof {
                    assert(old(store)@.dom().contains(t@));
                    assert(!no_token_shaped_key(old(store)@)) by {
                        if no_token_shaped_key(old(store)@) {
                            assert(!(valid_token(t@) && t@.len() == 36));
                        }
                    }
                }
                attempts = attempts + 1;
            },
        }
    }
    redirect_keep(Status::SeeOther, "/login?result=failed")
}

/// `GET /logout`: with authentication disabled a plain redirect home;
/// otherwise the resolved token (if any) leaves the store, the cookie is
/// cleared unconditionally, and the caller lands on the login page.
pub fn logout(auth_enabled: bool, token: Option<&String>, store: &mut UserSessions) -> (r:
    HttpResponse)
    requires
        old(store).wf(),
    ensures
        final(store).wf(),
        logout_resp_ok(auth_enabled, r@),
        !auth_enabled ==> final(store)@ == old(store)@,
        auth_enabled ==> final(store)@ == (match token {
            Some(t) => old(store)@.remove(t@),
            None => old(store)@,
        }),
{
    if !auth_enabled {
        return redirect_keep(Status::TemporaryRedirect, "/");
    }
    match token {
        Some(t) => {
            store.remove(t.as_str());
        },
        None => {},
    }
    redirect_clear(Status::TemporaryRedirect, "/login")
}

/// `GET /api/user`.
pub fn get_user(auth_enabled: bool, user: Option<&UserSession>) -> (r: HttpResponse)
    ensures
        user_resp_ok(auth_enabled, user_view(user), r@),
{
    if auth_enabled && user.is_none() {
        return empty_response(Status::Unauthorized);
    }
    let body = crate::json::render_user(user);
    HttpResponse {
        status: Status::Success,
        content_type: ContentKind::Json,
        body,
        location: None,
        set_cookie: None,
    }
}

/// `GET /api/sessions`, after the upstream list call: unauthorized in the
/// unauthenticated mode, internal error when the upstream failed, else the
/// caller's visible sessions as JSON, logs stripped.
pub fn get_sessions(
    auth_enabled: bool,
    user: Option<&UserSession>,
    upstream: Option<&Vec<JobSession>>,
) -> (r: HttpResponse)
    ensures
        auth_enabled && user is None ==> unauthorized_resp(r@),
        !(auth_enabled && user is None) ==> match upstream {
            Some(ss) => r@.status == Status::Success && r@.content_type == ContentKind::Json
                && r@.body == sessions_json(
                crate::jobs::filter_spec(auth_enabled, user_view(user), job_views(ss@)),
            ) && r@.location is None && r@.set_cookie is None,
            None => internal_error_resp(r@),
        },
{
    if auth_enabled && user.is_none() {
        return empty_response(Status::Unauthorized);
    }
    match upstream {
        Some(ss) => {
            let visible = crate::jobs::filter_sessions(auth_enabled, user, ss);
            let body = crate::json::render_sessions(&visible);
            HttpResponse {
                status: Status::Success,
                content_type: ContentKind::Json,
                body,
                location: None,
                set_cookie: None,
            }
        },
        None => empty_response(Status::InternalError),
    }
}

/// What a kill request needs next.
pub enum KillStep {
    Respond(HttpResponse),
    Fetch,
    Kill,
}

/// `DELETE /api/sessions/{id}`, before any upstream call: permitted
/// outright with authentication disabled or for a privileged caller,
/// refused for an unauthenticated one, and needing the target fetched for
/// anyone else.
pub fn kill_precheck(auth_enabled: bool, user: Option<&UserSession>) -> (r: KillStep)
    ensures
        !auth_enabled ==> r is Kill,
        auth_enabled && user is None ==> (r matches KillStep::Respond(resp)
            && unauthorized_resp(resp@)),
        auth_enabled && user is Some ==> (user matches Some(u) && (if u.is_admin {
            r is Kill
        } else {
            r is Fetch
        })),
{
    if !auth_enabled {
        return KillStep::Kill;
    }
    match user {
        None => KillStep::Respond(empty_response(Status::Unauthorized)),
        Some(u) => {
            if u.is_admin {
                KillStep::Kill
            } else {
                KillStep::Fetch
            }
        },
    }
}

/// `DELETE /api/sessions/{id}` for a non-privileged caller, after the
/// target was fetched: the kill proceeds exactly when the policy allows
/// it of the fetched record.
pub fn kill_fetched(user: &UserSession, fetched: Option<&JobSession>) -> (r: KillStep)
    ensures
        ({
            let fv = match fetched {
                Some(s) => Some(s@),
                None => None,
            };
            if kill_allowed(true, Some(user@), fv) {
                r is Kill
            } else {
                (r matches KillStep::Respond(resp) && unauthorized_resp(resp@))
            }
        }),
{
    if crate::jobs::has_kill_session_authority(true, Some(user), fetched) {
        KillStep::Kill
    } else {
        KillStep::Respond(empty_response(Status::Unauthorized))
    }
}

/// The response after the upstream kill call.
pub fn kill_finish(ok: bool) -> (r: HttpResponse)
    ensures
        ok ==> r@.status == Status::Success && r@.content_type == ContentKind::Json && r@.body
            == "{}"@ && r@.location is None && r@.set_cookie is None,
        !ok ==> internal_error_resp(r@),
{
    if ok {
        response(Status::Success, "{}", ContentKind::Json)
    } else {
        empty_response(Status::InternalError)
    }
}

/// An unmatched route.
pub fn not_found() -> (r: HttpResponse)
    ensures
        not_found_resp(r@),
{
    empty_response(Status::NotFound)
}

/// What the dispatcher asks of the surrounding process: a finished
/// response, or the one upstream call to make before finishing.
pub enum Action {
    Respond(HttpResponse),
    Authenticate { uid: String, password: String },
    FetchSessions,
    FetchSession { id: i64 },
    Kill { id: i64 },
}

/// Dispatches one request: resolves the caller's identity, routes, takes
/// every decision that needs no upstream call, and names the upstream call
/// that remains. The store changes only on logout, where the resolved
/// token leaves it.
pub fn call(
    auth_enabled: bool,
    store: &mut UserSessions,
    method: Method,
    path: &str,
    cookie_headers: &Vec<String>,
    body: &str,
) -> (r: Action)
    requires
        old(store).wf(),
    ensures
        final(store).wf(),
        ({
            let hs = cookie_headers@.map_values(|h: String| h@);
            let uv = resolved_user_spec(auth_enabled, old(store)@, hs);
            let rt = route_spec(method, path@);
            &&& (if auth_enabled && rt == Route::Logout {
                final(store)@ == (match extract_spec(hs) {
                    Some(t) => old(store)@.remove(t),
                    None => old(store)@,
                })
            } else {
                final(store)@ == old(store)@
            })
            &&& (rt == Route::Index ==> (r matches Action::Respond(resp) && index_resp_ok(
                auth_enabled,
                uv,
                resp@,
            )))
            &&& (rt == Route::LoginPage ==> (r matches Action::Respond(resp) && login_resp_ok(
                auth_enabled,
                uv,
                resp@,
            )))
            &&& (rt == Route::LoginSubmit ==> (if !auth_enabled || uv is Some {
                (r matches Action::Respond(resp) && home_redirect_resp(Status::SeeOther, resp@))
            } else {
                match parse_form_spec(body@) {
                    Some(p) => (r matches Action::Authenticate { uid, password } && uid@ == p.0
                        && password@ == p.1),
                    None => (r matches Action::Respond(resp) && bad_request_resp(resp@)),
                }
            }))
            &&& (rt == Route::Logout ==> (r matches Action::Respond(resp) && logout_resp_ok(
                auth_enabled,
                resp@,
            )))
            &&& (rt == Route::ApiUser ==> (r matches Action::Respond(resp) && user_resp_ok(
                auth_enabled,
                uv,
                resp@,
            )))
            &&& (rt == Route::ApiSessions ==> (if auth_enabled && uv is None {
                (r matches Action::Respond(resp) && unauthorized_resp(resp@))
            } else {
                r == Action::FetchSessions
            }))
            &&& (forall|id: i64|
                rt == Route::ApiKill(id) ==> (if !auth_enabled {
                    r == (Action::Kill { id })
                } else {
                    match uv {
                        None => (r matches Action::Respond(resp) && unauthorized_resp(resp@)),
                        Some(u) => if u.is_admin {
                            r == (Action::Kill { id })
                        } else {
                            r == (Action::FetchSession { id })
                        },
                    }
                }))
            &&& (rt == Route::KillTooLarge ==> (r matches Action::Respond(resp)
                && bad_request_resp(resp@)))
            &&& (rt == Route::NotFound ==> (r matches Action::Respond(resp) && not_found_resp(
                resp@,
            )))
        }),
{
    let user = get_user_session(auth_enabled, store, cookie_headers);
    let user_ref = match &user {
        Some(u) => Some(u),
        None => None,
    };
    match route(method, path) {
        Route::Index => Action::Respond(index(auth_enabled, user_ref)),
        Route::LoginPage => Action::Respond(login(auth_enabled, user_ref)),
        Route::LoginSubmit => match auth(auth_enabled, user_ref, body) {
            AuthStep::Done(resp) => Action::Respond(resp),
            AuthStep::Check { uid, password } => Action::Authenticate { uid, password },
        },
        Route::Logout => {
            let token = crate::cookie::get_uuid(cookie_headers);
            let token_ref = match &token {
                Some(t) => Some(t),
                None => None,
            };
            Action::Respond(logout(auth_enabled, token_ref, store))
        },
        Route::ApiUser => Action::Respond(get_user(auth_enabled, user_ref)),
        Route::ApiSessions => {
            if auth_enabled && user.is_none() {
                Action::Respond(empty_response(Status::Unauthorized))
            } else {
                Action::FetchSessions
            }
        },
        Route::ApiKill(id) => match kill_precheck(auth_enabled, user_ref) {
            KillStep::Respond(resp) => Action::Respond(resp),
            KillStep::Fetch => Action::FetchSession { id },
            KillStep::Kill => Action::Kill { id },
        },
        Route::KillTooLarge => Action::Respond(empty_response(Status::BadRequest)),
        Route::NotFound => Action::Respond(not_found()),
    }
}

/// Law: with no directory configured every caller is treated as both
/// authenticated and privileged -- no identity is ever resolved, yet the
/// pages serve, the listing equals what any privileged caller would be
/// served (every session, logs stripped), every kill is permitted -- and
/// the login page and login submission are unreachable: both send the
/// caller home.
pub proof fn lemma_auth_disabled(
    store: Map<Seq<char>, UserSessionView>,
    hs: Seq<Seq<char>>,
    uv: Option<UserSessionView>,
    admin: UserSessionView,
    rv: ResponseView,
    ss: Seq<crate::jobs::JobSessionView>,
    fetched: Option<crate::jobs::JobSessionView>,
)
    requires
        admin.is_admin,
    ensures
        resolved_user_spec(false, store, hs) is None,
        index_resp_ok(false, uv, rv) ==> rv.status == Status::Success && rv.body == INDEX@,
        login_resp_ok(false, uv, rv) ==> home_redirect_resp(Status::TemporaryRedirect, rv),
        logout_resp_ok(false, rv) ==> home_redirect_resp(Status::TemporaryRedirect, rv),
        user_resp_ok(false, uv, rv) ==> rv.status == Status::Success,
        crate::jobs::filter_spec(false, uv, ss) == crate::jobs::filter_spec(
            true,
            Some(admin),
            ss,
        ),
        crate::jobs::filter_spec(false, uv, ss) == ss.map_values(
            |s: crate::jobs::JobSessionView| crate::jobs::strip_log(s),
        ),
        kill_allowed(false, uv, fetched),
        kill_allowed(true, Some(admin), fetched),
{
    crate::jobs::lemma_filter_auth_disabled(uv, ss);
    crate::jobs::lemma_filter_privileged(admin, ss);
}

} // verus!
