use duke_portal::dir;
use duke_portal::keys::{AuthToken, LinkToken, OrgKey, SectionKey, UserKey};
use duke_portal::util;

#[test]
fn key_text_round_trip() {
    let key = UserKey(0x0123_4567_89ab_cdef_0011_2233_4455_6677);
    let text = key.to_string();
    assert_eq!(text, "01234567-89ab-cdef-0011-223344556677");
    assert_eq!(UserKey::from_str(&text), Ok(key));
}

#[test]
fn key_from_bad_text_is_refused() {
    assert!(OrgKey::from_str("not a key").is_err());
    assert!(SectionKey::from_str("").is_err());
}

#[test]
fn key_parses_upper_case_text() {
    let parsed = AuthToken::from_str("01234567-89AB-CDEF-0011-223344556677").unwrap();
    assert_eq!(parsed, AuthToken(0x0123_4567_89ab_cdef_0011_2233_4455_6677));
}

#[test]
fn generated_keys_are_random_uuids() {
    let a = LinkToken::generate();
    let b = LinkToken::generate();
    assert_ne!(a, b);
    let text = a.to_string();
    assert_eq!(text.chars().nth(14), Some('4'));
    let variant = text.chars().nth(19).unwrap();
    assert!(variant == '8' || variant == '9' || variant == 'a' || variant == 'b');
}

#[test]
fn key_bytes_are_big_endian() {
    let key = UserKey(0x0102_0304_0506_0708_090a_0b0c_0d0e_0f10);
    let bytes = key.as_bytes();
    assert_eq!(bytes, (1u8..=16).collect::<Vec<u8>>());
    assert_eq!(UserKey::from_key_bytes(&bytes), Some(key));
    assert_eq!(OrgKey::from_key_bytes(&vec![1, 2, 3]), None);
}

#[test]
fn server_valid_strings() {
    assert!(util::is_string_server_valid("Jane Doe-Smith_1!"));
    assert!(util::is_string_server_valid("jane@example.com"));
    assert!(!util::is_string_server_valid(""));
    assert!(!util::is_string_server_valid("   "));
    assert!(!util::is_string_server_valid("semi;colon"));
    assert!(util::is_optional_string_server_valid(""));
    assert!(!util::is_optional_string_server_valid("<script>"));
    assert!(util::is_string_server_valid("Zoë"));
}

#[test]
fn email_validity() {
    assert!(util::is_email_valid("jane@example.com"));
    assert!(!util::is_email_valid("jane.example.com"));
    assert!(!util::is_email_valid("@example.com"));
    assert!(!util::is_email_valid("jane@example"));
    assert!(!util::is_email_valid("jane@@example.com"));
    assert!(util::is_email_valid("jane@example."));
    assert!(util::is_email_valid("j@e.c"));
}

#[test]
fn password_length_rule() {
    assert!(util::is_password_valid("abcdef"));
    assert!(!util::is_password_valid("abcde"));
    assert!(util::is_password_valid("ééé"));
}

#[test]
fn generated_passwords_are_alphanumeric() {
    let p = util::gen_password(8);
    assert_eq!(p.chars().count(), 8);
    assert!(p.chars().all(|c| c.is_ascii_alphanumeric()));
    assert_eq!(util::gen_password(0), "");
}

#[test]
fn counts_and_text_equality() {
    assert_eq!(util::count_text(0), "0");
    assert_eq!(util::count_text(1203), "1203");
    assert!(util::same_text("abc", "abc"));
    assert!(!util::same_text("abc", "abd"));
    assert!(!util::same_text("abc", "ab"));
}

#[test]
fn paths_of_users_orgs_and_pupils() {
    let user = UserKey(1);
    let org = OrgKey(2);
    assert_eq!(dir::user_path(user), "/user/00000000-0000-0000-0000-000000000001");
    assert_eq!(dir::org_path(org), "/org/00000000-0000-0000-0000-000000000002");
    assert_eq!(
        dir::client_path(org, user),
        "/org/00000000-0000-0000-0000-000000000002/client/00000000-0000-0000-0000-000000000001"
    );
}

#[test]
fn a_clock_reading_stands_for_its_instant() {
    assert_eq!(duke_portal::time::instant_of(Some(42)), 42);
    assert_eq!(duke_portal::time::instant_of(None), 0);
    assert!(duke_portal::time::now() > 0);
}

#[test]
fn dashboards_of_different_pupils_differ() {
    let a = dir::client_path(OrgKey(2), UserKey(1));
    let b = dir::client_path(OrgKey(2), UserKey(3));
    let c = dir::client_path(OrgKey(4), UserKey(1));
    assert_ne!(a, b);
    assert_ne!(a, c);
    assert!(a.starts_with(&dir::org_path(OrgKey(2))));
}
