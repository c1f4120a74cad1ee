use livy_manager::COOKIE_NAME;
use livy_manager::clear_cookie;
use livy_manager::extract_uid_password;
use livy_manager::get_uuid;
use livy_manager::issue;
use livy_manager::set_cookie;

#[test]
fn cookie_name_constant() {
    assert_eq!(COOKIE_NAME, "_lmsid");
}

#[test]
fn issued_tokens_are_hyphenated_uuids() {
    let t = issue();
    assert_eq!(t.len(), 36);
    assert!(t.chars().all(|c| c.is_ascii_hexdigit() && !c.is_ascii_uppercase() || c == '-'));
    let t2 = issue();
    assert_ne!(t, t2);
}

#[test]
fn cookie_round_trip_returns_the_token() {
    let t = issue();
    let header = set_cookie(&t);
    assert_eq!(get_uuid(&vec![header]), Some(t));
}

#[test]
fn set_cookie_has_path_and_expiry() {
    let header = set_cookie("sometoken");
    assert!(header.starts_with("_lmsid=sometoken; expires="));
    assert!(header.ends_with("; path=/"));
}

#[test]
fn clear_cookie_has_empty_value() {
    let header = clear_cookie();
    assert!(header.starts_with("_lmsid=; expires="));
    assert!(header.ends_with("; path=/"));
    assert_eq!(get_uuid(&vec![header]), None);
}

#[test]
fn extract_finds_cookie_among_others() {
    let h = String::from("theme=dark; _lmsid=tok123; lang=en");
    assert_eq!(get_uuid(&vec![h]), Some(String::from("tok123")));
}

#[test]
fn extract_trims_whitespace_around_pairs() {
    let h = String::from("theme=dark;   _lmsid=tok123  ");
    assert_eq!(get_uuid(&vec![h]), Some(String::from("tok123")));
}

#[test]
fn extract_last_occurrence_wins() {
    let h = String::from("_lmsid=first; _lmsid=second");
    assert_eq!(get_uuid(&vec![h]), Some(String::from("second")));
    let hs = vec![String::from("_lmsid=first"), String::from("_lmsid=second")];
    assert_eq!(get_uuid(&hs), Some(String::from("second")));
}

#[test]
fn extract_empty_value_counts_as_absent() {
    let h = String::from("_lmsid=tok; _lmsid=");
    assert_eq!(get_uuid(&vec![h]), None);
}

#[test]
fn malformed_cookie_without_value_is_absent() {
    let h = String::from("_lmsid");
    assert_eq!(get_uuid(&vec![h]), None);
    let h2 = String::from("theme; _lmsid; lang");
    assert_eq!(get_uuid(&vec![h2]), None);
}

#[test]
fn extract_name_with_space_does_not_match() {
    let h = String::from("_lmsid = tok");
    assert_eq!(get_uuid(&vec![h]), None);
}

#[test]
fn extract_no_headers_is_absent() {
    assert_eq!(get_uuid(&Vec::new()), None);
}

#[test]
fn extract_value_keeps_inner_equals() {
    let h = String::from("_lmsid=a=b");
    assert_eq!(get_uuid(&vec![h]), Some(String::from("a=b")));
}

#[test]
fn form_parses_both_fields() {
    let r = extract_uid_password("uid=carol&password=secret");
    assert_eq!(r, Some((String::from("carol"), String::from("secret"))));
}

#[test]
fn form_percent_decodes_values() {
    let r = extract_uid_password("uid=ca%72ol&password=p%40ss");
    assert_eq!(r, Some((String::from("carol"), String::from("p@ss"))));
}

#[test]
fn form_trims_the_body() {
    let r = extract_uid_password("\r\nuid=carol&password=x\r\n");
    assert_eq!(r, Some((String::from("carol"), String::from("x"))));
}

#[test]
fn form_missing_field_is_malformed() {
    assert_eq!(extract_uid_password("uid=carol"), None);
    assert_eq!(extract_uid_password("password=x"), None);
    assert_eq!(extract_uid_password(""), None);
    assert_eq!(extract_uid_password("user=carol&pass=x"), None);
}

#[test]
fn form_pair_with_two_equals_is_skipped() {
    assert_eq!(extract_uid_password("uid=a=b&password=x"), None);
}

#[test]
fn form_last_occurrence_wins() {
    let r = extract_uid_password("uid=one&uid=two&password=x");
    assert_eq!(r, Some((String::from("two"), String::from("x"))));
}

#[test]
fn form_empty_password_is_allowed() {
    let r = extract_uid_password("uid=carol&password=");
    assert_eq!(r, Some((String::from("carol"), String::from(""))));
}
