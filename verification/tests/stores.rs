use duke_portal::auth::AuthManager;
use duke_portal::codec;
use duke_portal::db::{Database, StoreError};
use duke_portal::keys::{OrgKey, SectionKey, UserKey};
use duke_portal::link::{Link, LinkEntry, LinkManager};
use duke_portal::login::{AuthError, LoginDb, LoginEntry, LoginEntryError};
use duke_portal::org::{Org, OrgDb};
use duke_portal::section::{FormEntryData, Section, SectionState};
use duke_portal::section_store::SectionDb;
use duke_portal::user::{User, UserAgent, UserDb};

fn scratch(name: &str) -> String {
    format!("/tmp/duke-portal-tests/stores/{}-{}", name, UserKey::generate().to_string())
}

fn teacher() -> User {
    User {
        email: "t@school.org".to_owned(),
        forename: "Tess".to_owned(),
        surname: "Teach".to_owned(),
        notifications: false,
        user_agent: UserAgent::Associate(OrgKey(3)),
    }
}

#[test]
fn login_entry_bytes_follow_bincode_layout() {
    let entry = LoginEntry { password: "ab".to_owned(), user_id: UserKey(1), default_password: true };
    let bytes = codec::encode(&entry).unwrap();
    let mut expected: Vec<u8> = Vec::new();
    expected.extend_from_slice(&2u64.to_le_bytes());
    expected.extend_from_slice(&1u128.to_le_bytes());
    expected.extend_from_slice(&1u128.to_le_bytes());
    expected.extend_from_slice(&1u64.to_le_bytes());
    expected.extend_from_slice(&2u64.to_le_bytes());
    expected.extend_from_slice(b"ab");
    expected.extend_from_slice(&0u64.to_le_bytes());
    assert_eq!(bytes, expected);
    let back: LoginEntry = codec::decode(&bytes).unwrap().unwrap();
    assert_eq!(back.password, "ab");
    assert_eq!(back.user_id, UserKey(1));
    assert!(back.default_password);
}

#[test]
fn records_round_trip_through_bytes() {
    let user = User {
        user_agent: UserAgent::Client {
            org_id: OrgKey(4),
            class: "9C".to_owned(),
            award: "gold".to_owned(),
            sections: [None, Some(SectionKey(7)), None, None, None, Some(SectionKey(8))],
        },
        ..teacher()
    };
    let back: User = codec::decode(&codec::encode(&user).unwrap()).unwrap().unwrap();
    assert_eq!(back.user_agent, user.user_agent);
    assert_eq!(back.email, user.email);

    let mut section = Section::new(2, "silver".to_owned(), "meals".to_owned(), UserKey(9));
    section.state = SectionState::Rejected("too short".to_owned());
    section.input_data.push(("q1".to_owned(), FormEntryData::Indices(vec![0, 2])));
    section.input_data.push(("q2".to_owned(), FormEntryData::Text("yes".to_owned())));
    section.input_data.push(("q3".to_owned(), FormEntryData::Index(5)));
    let back: Section = codec::decode(&codec::encode(&section).unwrap()).unwrap().unwrap();
    assert_eq!(back.state, section.state);
    assert_eq!(back.input_data, section.input_data);
    assert_eq!(back.section_index, 2);
}

#[test]
fn foreign_numbers_do_not_read_as_a_login() {
    let org = Org::new("X".to_owned());
    let bytes = codec::encode(&org).unwrap();
    let read: Result<Option<LoginEntry>, _> = codec::decode(&bytes);
    assert!(matches!(read, Ok(None)));
}

#[test]
fn database_insert_fetch_remove() {
    let mut db: UserDb = Database::open(&scratch("users")).unwrap();
    let id = UserKey::generate();
    assert!(db.fetch(&id).unwrap().is_none());
    db.insert(&id, &teacher()).unwrap();
    assert!(db.contains_key(&id).unwrap());
    assert_eq!(db.fetch(&id).unwrap().unwrap().email, "t@school.org");
    let removed = db.remove(&id).unwrap().unwrap();
    assert_eq!(removed.forename, "Tess");
    assert!(!db.contains_key(&id).unwrap());
    assert!(db.remove(&id).unwrap().is_none());
}

#[test]
fn unreadable_bytes_are_reported() {
    let mut orgs: OrgDb = Database::open(&scratch("orgs")).unwrap();
    let key = OrgKey(1);
    orgs.insert(&key, &Org::new("A".to_owned())).unwrap();
    let mut as_users: Database<OrgKey, User> = Database::open(&scratch("mixed")).unwrap();
    as_users.insert(&key, &teacher()).unwrap();
    let (entries, complete) = as_users.entries();
    assert!(complete);
    assert_eq!(entries.len(), 1);
    let (entries, _) = orgs.entries();
    assert_eq!(entries[0].0, key.as_bytes());
    assert_eq!(entries[0].1.as_ref().map(|o| o.name.clone()), Some("A".to_owned()));
}

#[test]
fn retain_keeps_what_the_filter_accepts() {
    let mut sections: SectionDb = Database::open(&scratch("sections")).unwrap();
    for i in 0..4usize {
        let s = Section::new(i, "silver".to_owned(), "video".to_owned(), UserKey(i as u128));
        sections.insert(&SectionKey(i as u128), &s).unwrap();
    }
    assert!(sections.retain(false, |s: &Section| s.section_index % 2 == 0));
    assert!(sections.contains_key(&SectionKey(0)).unwrap());
    assert!(!sections.contains_key(&SectionKey(1)).unwrap());
    assert!(sections.contains_key(&SectionKey(2)).unwrap());
    assert!(!sections.contains_key(&SectionKey(3)).unwrap());
}

#[test]
fn sessions_live_until_expiry() {
    let mut auth = AuthManager::open(&scratch("auth")).unwrap();
    let user = UserKey(11);
    let token = auth.create_session(&user, 60_000_000_000).unwrap();
    assert_eq!(auth.check_token(&token, true).unwrap(), Some(user));
    assert_eq!(auth.check_token(&token, false).unwrap(), Some(user));
    auth.destroy_session(&token).unwrap();
    assert_eq!(auth.check_token(&token, false).unwrap(), None);
}

#[test]
fn expired_sessions_are_removed() {
    let mut auth = AuthManager::open(&scratch("auth-expired")).unwrap();
    let token = auth.create_session(&UserKey(1), 0).unwrap();
    let live = auth.create_session(&UserKey(2), 60_000_000_000).unwrap();
    assert!(auth.clear_expired_sessions());
    assert_eq!(auth.check_token(&token, false).unwrap(), None);
    assert_eq!(auth.check_token(&live, false).unwrap(), Some(UserKey(2)));
    let stale = auth.create_session(&UserKey(3), 0).unwrap();
    assert_eq!(auth.check_token(&stale, true).unwrap(), None);
    assert!(!auth.db().contains_key(&stale).unwrap());
}

#[test]
fn links_can_be_followed_until_they_expire() {
    let mut links = LinkManager::open(&scratch("links")).unwrap();
    let live = links.create_link(Link::ChangePassword(UserKey(4)), 60_000_000_000).unwrap();
    let fetched: LinkEntry = links.fetch(&live).unwrap().unwrap();
    assert!(matches!(fetched.link, Link::ChangePassword(UserKey(4))));
    assert_eq!(fetched.timeout, 60_000_000_000);
    let dead = links.create_link(Link::CreateUser(UserAgent::Organisation(OrgKey(2))), 0).unwrap();
    assert!(links.fetch(&dead).unwrap().is_none());
    assert!(!links.db().contains_key(&dead).unwrap());
    let dead2 = links.create_link(Link::CreateUser(UserAgent::Admin), 0).unwrap();
    assert!(links.clear_expired_links());
    assert!(!links.db().contains_key(&dead2).unwrap());
    assert!(links.db().contains_key(&live).unwrap());
    links.destroy_link(&live).unwrap();
    assert!(links.fetch(&live).unwrap().is_none());
}

#[test]
fn logins_authenticate_with_their_password() {
    let mut logins = LoginDb::open(&scratch("logins")).unwrap();
    let entry = LoginEntry { password: "secret1".to_owned(), user_id: UserKey(21), default_password: true };
    logins.add_entry("a@b.c", &entry).unwrap();
    assert_eq!(logins.authenticate("a@b.c", "secret1").unwrap(), UserKey(21));
    assert!(matches!(logins.authenticate("a@b.c", "wrong"), Err(AuthError::IncorrectPassword)));
    assert!(matches!(logins.authenticate("x@b.c", "secret1"), Err(AuthError::NoUser)));
    assert!(matches!(logins.add_entry("a@b.c", &entry), Err(LoginEntryError::UsernameExists)));
}

#[test]
fn changed_password_replaces_the_old_one() {
    let mut logins = LoginDb::open(&scratch("logins-change")).unwrap();
    let entry = LoginEntry { password: "first1".to_owned(), user_id: UserKey(5), default_password: true };
    logins.add_entry("p@q.r", &entry).unwrap();
    logins.change_password("p@q.r", "second2", false).unwrap();
    assert!(matches!(logins.authenticate("p@q.r", "first1"), Err(AuthError::IncorrectPassword)));
    assert_eq!(logins.authenticate("p@q.r", "second2").unwrap(), UserKey(5));
    let stored = logins.db().fetch("p@q.r").unwrap().unwrap();
    assert!(!stored.default_password);
    assert!(matches!(logins.change_password("none@q.r", "x", false), Err(AuthError::NoUser)));
    logins.remove_login("p@q.r").unwrap();
    assert!(matches!(logins.authenticate("p@q.r", "second2"), Err(AuthError::NoUser)));
}

#[test]
fn error_messages() {
    assert_eq!(AuthError::NoUser.message().unwrap(), "No matching username found!");
    assert_eq!(AuthError::IncorrectPassword.message().unwrap(), "Incorrect password for username!");
    let error = StoreError::DeserializeError(Box::new(bincode::ErrorKind::SizeLimit));
    assert!(AuthError::DbError(error).message().is_none());
    assert_eq!(
        LoginEntryError::UsernameExists.message().unwrap(),
        "An account with the given username already exists!"
    );
    assert_eq!(
        LoginEntryError::NotUnique.message().unwrap(),
        "An account with similar characteristics exists where it should not!"
    );
}

#[test]
fn a_walk_is_read_entry_by_entry() {
    let org = duke_portal::org::Org::new("Hillside".to_owned());
    let bytes = duke_portal::codec::encode(&org).unwrap();
    let raw = vec![
        Ok((vec![1u8], bytes.clone())),
        Err(sled::Error::Unsupported("walk failed".to_owned())),
        Ok((vec![2u8], vec![1u8, 2, 3])),
    ];
    let (out, complete) = duke_portal::db::decode_entries::<duke_portal::org::Org>(&raw);
    assert!(!complete);
    assert_eq!(out.len(), 2);
    assert_eq!(out[0].0, vec![1u8]);
    assert_eq!(out[0].1.as_ref().unwrap().name, "Hillside");
    assert_eq!(out[1].0, vec![2u8]);
    assert!(out[1].1.is_none());
    let (all, complete) = duke_portal::db::decode_entries::<duke_portal::org::Org>(&vec![Ok((vec![3u8], bytes))]);
    assert!(complete);
    assert_eq!(all.len(), 1);
}

#[test]
fn bytes_of_another_kind_fail_to_deserialize() {
    let mut mixed: Database<OrgKey, LoginEntry> = Database::open(&scratch("foreign")).unwrap();
    let org = Org::new("X".to_owned());
    let mut as_orgs: Database<OrgKey, Org> = Database::open(&scratch("foreign-orgs")).unwrap();
    as_orgs.insert(&OrgKey(3), &org).unwrap();
    let bytes = codec::encode(&org).unwrap();
    assert!(matches!(codec::decode::<LoginEntry>(&bytes), Ok(None)));
    mixed.insert(&OrgKey(4), &LoginEntry { user_id: UserKey(1), password: "p".to_owned(), default_password: false }).unwrap();
    assert!(mixed.fetch(&OrgKey(4)).unwrap().is_some());
}

fn store_with(name: &str, entries: Vec<(Vec<u8>, Vec<u8>)>) -> String {
    let path = scratch(name);
    let db = sled::open(&path).unwrap();
    for (k, v) in entries {
        db.insert(k, v).unwrap();
    }
    db.flush().unwrap();
    drop(db);
    path
}

#[test]
fn unreadable_sessions_are_swept() {
    let path = store_with("auth-junk", vec![(b"junk".to_vec(), vec![1u8, 2, 3])]);
    let mut auth = AuthManager::open(&path).unwrap();
    assert_eq!(auth.db().entries().0.len(), 1);
    let live = auth.create_session(&UserKey(2), 60_000_000_000).unwrap();
    assert!(auth.clear_expired_sessions());
    let (left, complete) = auth.db().entries();
    assert!(complete);
    assert_eq!(left.len(), 1);
    assert_eq!(auth.check_token(&live, false).unwrap(), Some(UserKey(2)));
}

#[test]
fn unreadable_bytes_fetch_as_a_deserialize_error() {
    let login = LoginEntry { user_id: UserKey(1), password: "p".to_owned(), default_password: false };
    let path = store_with(
        "junk-orgs",
        vec![
            (5u128.to_be_bytes().to_vec(), vec![1u8, 2, 3]),
            (6u128.to_be_bytes().to_vec(), codec::encode(&login).unwrap()),
        ],
    );
    let orgs: Database<OrgKey, Org> = Database::open(&path).unwrap();
    assert!(matches!(orgs.fetch(&OrgKey(5)), Err(StoreError::DeserializeError(_))));
    assert!(matches!(orgs.fetch(&OrgKey(6)), Err(StoreError::DeserializeError(_))));
    assert!(orgs.fetch(&OrgKey(7)).unwrap().is_none());
}

#[test]
fn entries_come_in_key_order() {
    let mut orgs: Database<OrgKey, Org> = Database::open(&scratch("ordered-orgs")).unwrap();
    let org = Org::new("X".to_owned());
    orgs.insert(&OrgKey(300), &org).unwrap();
    orgs.insert(&OrgKey(2), &org).unwrap();
    orgs.insert(&OrgKey(40), &org).unwrap();
    let (entries, complete) = orgs.entries();
    assert!(complete);
    let keys: Vec<Vec<u8>> = entries.iter().map(|e| e.0.clone()).collect();
    assert_eq!(keys, vec![2u128.to_be_bytes().to_vec(), 40u128.to_be_bytes().to_vec(), 300u128.to_be_bytes().to_vec()]);
}

#[test]
fn a_token_found_dead_stays_dead() {
    let mut auth = AuthManager::open(&scratch("auth-stable")).unwrap();
    let token = auth.create_session(&UserKey(5), 0).unwrap();
    assert_eq!(auth.check_token(&token, false).unwrap(), None);
    assert_eq!(auth.check_token(&token, true).unwrap(), None);
    assert!(!auth.db().contains_key(&token).unwrap());
    let never = duke_portal::keys::AuthToken(12);
    assert_eq!(auth.check_token(&never, false).unwrap(), None);
}

#[test]
fn only_a_generated_password_is_shown() {
    let generated = LoginEntry { password: "abc123".to_owned(), user_id: UserKey(1), default_password: true };
    assert_eq!(generated.shown_password(), Some("abc123".to_owned()));
    let chosen = LoginEntry { password: "mine12".to_owned(), user_id: UserKey(1), default_password: false };
    assert_eq!(chosen.shown_password(), None);
}

#[test]
fn links_follow_the_instant_they_are_read_at() {
    let e = LinkEntry::made_at(Link::ChangePassword(UserKey(1)), 10, 5);
    assert_eq!(e.expiry, 15);
    assert_eq!(e.timeout, 5);
    assert!(e.is_live(14));
    assert!(!e.is_live(15));
    let mut links = LinkManager::open(&scratch("links-at")).unwrap();
    let token = links.create_link_at(Link::ChangePassword(UserKey(4)), 1_000, 500).unwrap();
    let entry = links.fetch_at(&token, 1_499).unwrap().unwrap();
    assert_eq!(entry.expiry, 1_500);
    assert!(links.db().contains_key(&token).unwrap());
    assert!(links.fetch_at(&token, 1_500).unwrap().is_none());
    assert!(!links.db().contains_key(&token).unwrap());
    assert!(links.fetch_at(&token, 0).unwrap().is_none());
}

#[test]
fn sweeps_keep_what_is_live_at_their_instant() {
    let mut links = LinkManager::open(&scratch("links-sweep-at")).unwrap();
    let early = links.create_link_at(Link::ChangePassword(UserKey(1)), 100, 10).unwrap();
    let late = links.create_link_at(Link::ChangePassword(UserKey(2)), 100, 50).unwrap();
    assert!(links.clear_expired_links_at(110));
    assert!(!links.db().contains_key(&early).unwrap());
    assert!(links.db().contains_key(&late).unwrap());
    let mut auth = AuthManager::open(&scratch("auth-sweep-at")).unwrap();
    let token = auth.create_session(&UserKey(3), 60_000_000_000).unwrap();
    assert!(auth.clear_expired_sessions_at(0));
    assert!(auth.db().contains_key(&token).unwrap());
    assert!(auth.clear_expired_sessions_at(u128::MAX));
    assert!(!auth.db().contains_key(&token).unwrap());
}

#[test]
fn padded_records_are_read_as_what_they_hold() {
    let mut bytes = codec::encode(&duke_portal::auth::AuthSession::started(UserKey(9), 0, 0)).unwrap();
    bytes.push(7);
    let path = store_with("padded-session", vec![(b"pad".to_vec(), bytes)]);
    let mut auth = AuthManager::open(&path).unwrap();
    assert_eq!(auth.db().entries().0.len(), 1);
    assert!(auth.clear_expired_sessions());
    assert!(auth.db().entries().0.is_empty());
    let mut login = codec::encode(&LoginEntry { password: "secret".to_owned(), user_id: UserKey(1), default_password: false }).unwrap();
    login.push(7);
    let path = store_with("padded-login", vec![(b"a@b.c".to_vec(), login)]);
    let logins = LoginDb::open(&path).unwrap();
    assert_eq!(logins.authenticate("a@b.c", "secret").unwrap(), UserKey(1));
    assert!(matches!(logins.authenticate("a@b.c", "other"), Err(AuthError::IncorrectPassword)));
}
