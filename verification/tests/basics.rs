use livy_manager::Config;
use livy_manager::HTTP;
use livy_manager::LivyClient;
use livy_manager::Status;
use livy_manager::directory_identity;
use livy_manager::member_filter;
use livy_manager::str_eq;
use livy_manager::user_dn;

#[test]
fn it_works() {
}

#[test]
fn str_eq_compares_characters() {
    assert!(str_eq("abc", "abc"));
    assert!(!str_eq("abc", "abd"));
    assert!(!str_eq("abc", "ab"));
    assert!(str_eq("", ""));
}

#[test]
fn user_dn_replaces_placeholder() {
    let dn = user_dn("uid={},ou=people,dc=example,dc=com", "carol");
    assert_eq!(dn, "uid=carol,ou=people,dc=example,dc=com");
}

#[test]
fn user_dn_without_placeholder_is_unchanged() {
    let dn = user_dn("cn=admin,dc=example,dc=com", "carol");
    assert_eq!(dn, "cn=admin,dc=example,dc=com");
}

#[test]
fn member_filter_prefixes_dn() {
    let f = member_filter("uid=carol,ou=people,dc=example,dc=com");
    assert_eq!(f, "member=uid=carol,ou=people,dc=example,dc=com");
}

#[test]
fn exactly_one_admin_row_grants_privilege() {
    let u0 = directory_identity("carol", 0);
    assert_eq!(u0.uid, "carol");
    assert!(!u0.is_admin);
    let u1 = directory_identity("carol", 1);
    assert!(u1.is_admin);
    let u2 = directory_identity("carol", 2);
    assert!(!u2.is_admin);
    let u9 = directory_identity("carol", 9);
    assert!(!u9.is_admin);
}

#[test]
fn status_codes() {
    assert_eq!(Status::Success.code(), 200);
    assert_eq!(Status::SeeOther.code(), 303);
    assert_eq!(Status::TemporaryRedirect.code(), 307);
    assert_eq!(Status::BadRequest.code(), 400);
    assert_eq!(Status::Unauthorized.code(), 401);
    assert_eq!(Status::NotFound.code(), 404);
    assert_eq!(Status::InternalError.code(), 500);
}

#[test]
fn auth_required_follows_directory_block() {
    let conf = Config {
        http: HTTP { addr: String::from("127.0.0.1:8080"), num_threads: 4 },
        ldap: None,
        livy_client: LivyClient {
            url: String::from("http://livy:8998"),
            gssnegotiate: None,
            username: None,
        },
    };
    assert!(!conf.auth_required());
}
