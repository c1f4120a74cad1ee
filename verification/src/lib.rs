//! Session-and-authorization core of a small web front end for observing and
//! terminating remote compute sessions. The library authenticates users
//! against a directory service, issues and validates opaque session tokens
//! carried in a cookie, keeps a table from tokens to authenticated
//! identities, and enforces an ownership/role-based policy over the
//! privileged operations (listing and killing job sessions).

mod config;
mod cookie;
mod dispatch;
mod form;
mod frontend;
mod http;
mod jobs;
mod json;
mod session;
mod store;
mod text;

pub use config::CmdArgs;
pub use config::Config;
pub use config::HTTP;
pub use config::LDAP;
pub use config::LivyClient;
pub use cookie::COOKIE_NAME;
pub use cookie::clear_cookie;
pub use cookie::clear_cookie_chars;
pub use cookie::clear_cookie_ok;
pub use cookie::cookie_name;
pub use cookie::extract_spec;
pub use cookie::get_uuid;
pub use cookie::issue;
pub use cookie::lemma_cookie_round_trip;
pub use cookie::set_cookie;
pub use cookie::set_cookie_chars;
pub use cookie::set_cookie_ok;
pub use cookie::valid_token;
pub use dispatch::Action;
pub use dispatch::AuthStep;
pub use dispatch::KillStep;
pub use dispatch::Method;
pub use dispatch::Route;
pub use dispatch::auth;
pub use dispatch::auth_finish;
pub use dispatch::call;
pub use dispatch::get_sessions;
pub use dispatch::get_user;
pub use dispatch::get_user_session;
pub use dispatch::index;
pub use dispatch::kill_fetched;
pub use dispatch::kill_finish;
pub use dispatch::kill_precheck;
pub use dispatch::lemma_auth_disabled;
pub use dispatch::login;
pub use dispatch::logout;
pub use dispatch::no_token_shaped_key;
pub use dispatch::not_found;
pub use dispatch::resolved_user_spec;
pub use dispatch::route;
pub use dispatch::route_spec;
pub use form::extract_uid_password;
pub use form::parse_form_spec;
pub use form::pct_decoded;
pub use frontend::INDEX;
pub use frontend::LOGIN;
pub use http::ContentKind;
pub use http::HttpResponse;
pub use http::ResponseView;
pub use http::Status;
pub use http::headers_spec;
pub use http::response;
pub use http::response_headers;
pub use jobs::JobSession;
pub use jobs::JobSessionView;
pub use jobs::filter_sessions;
pub use jobs::filter_spec;
pub use jobs::has_kill_session_authority;
pub use jobs::job_views;
pub use jobs::kill_allowed;
pub use jobs::lemma_filter_auth_disabled;
pub use jobs::lemma_filter_log_absent;
pub use jobs::lemma_filter_nonprivileged;
pub use jobs::lemma_filter_privileged;
pub use jobs::lemma_kill_authority;
pub use jobs::strip_log;
pub use jobs::user_view;
pub use jobs::visible_to;
pub use json::json_string;
pub use json::render_sessions;
pub use json::render_user;
pub use json::sessions_json;
pub use json::user_json;
pub use session::UserSession;
pub use session::UserSessionView;
pub use session::directory_identity;
pub use session::member_filter;
pub use session::member_filter_spec;
pub use session::user_dn;
pub use session::user_dn_spec;
pub use store::ConflictError;
pub use store::UserSessions;
pub use store::lemma_store_consistency;
pub use text::str_eq;
