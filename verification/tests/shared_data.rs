use duke_portal::auth::AuthContext;
use duke_portal::data::{LinkActionError, SelectActivityError, SharedData, section_row};
use duke_portal::db::{StoreError, read_outcome};
use duke_portal::forms::CreateAccountForm;
use duke_portal::keys::{OrgKey, SectionKey, UserKey};
use duke_portal::link::Link;
use duke_portal::login::{AuthError, LoginEntryError};
use duke_portal::org::Org;
use duke_portal::roster::{associate_row, client_row};
use duke_portal::section::{Section, SectionState};
use duke_portal::user::{User, UserAgent};

fn portal() -> SharedData {
    let root = format!("/tmp/duke-portal-tests/portal/{}", UserKey::generate().to_string());
    SharedData::load_from_disk(root).unwrap()
}

fn person(email: &str, agent: UserAgent) -> User {
    User {
        email: email.to_owned(),
        forename: "Sam".to_owned(),
        surname: "Smith".to_owned(),
        notifications: true,
        user_agent: agent,
    }
}

fn pupil_of(org: OrgKey) -> UserAgent {
    UserAgent::Client { org_id: org, class: "8A".to_owned(), award: "silver".to_owned(), sections: [None; 6] }
}

fn add_org(data: &mut SharedData, credits: u32) -> OrgKey {
    let key = OrgKey::generate();
    let mut org = Org::new("Hillside".to_owned());
    org.add_credits(credits);
    data.org_db.insert(&key, &org).unwrap();
    key
}

#[test]
fn loading_sets_up_the_awards() {
    let data = portal();
    assert_eq!(data.awards.len(), 2);
    assert_eq!(data.awards[0].0, "silver");
    assert!(data.fs_root.starts_with("/tmp/duke-portal-tests/portal/"));
}

#[test]
fn registering_a_pupil_takes_a_credit_and_deleting_gives_it_back() {
    let mut data = portal();
    let org_id = add_org(&mut data, 2);
    let id = data.register_user(&person("p@s.org", pupil_of(org_id)), "pass123", true).unwrap();
    let org = data.org_db.fetch(&org_id).unwrap().unwrap();
    assert_eq!(org.clients, vec![id]);
    assert_eq!(org.credits, 1);
    data.delete_user(&id).unwrap();
    let org = data.org_db.fetch(&org_id).unwrap().unwrap();
    assert!(org.clients.is_empty());
    assert_eq!(org.credits, 2);
    assert!(data.user_db.fetch(&id).unwrap().is_none());
    assert!(matches!(data.login(&"p@s.org".to_owned(), "pass123", 60_000_000_000), Err(AuthError::NoUser)));
}

#[test]
fn registering_a_teacher_joins_the_teachers() {
    let mut data = portal();
    let org_id = add_org(&mut data, 0);
    let id = data.register_user(&person("t@s.org", UserAgent::Associate(org_id)), "pass123", false).unwrap();
    assert_eq!(data.org_db.fetch(&org_id).unwrap().unwrap().associates, vec![id]);
    data.delete_user(&id).unwrap();
    assert!(data.org_db.fetch(&org_id).unwrap().unwrap().associates.is_empty());
}

#[test]
fn a_pupil_without_credit_is_not_listed() {
    let mut data = portal();
    let org_id = add_org(&mut data, 0);
    let id = data.register_user(&person("p@s.org", pupil_of(org_id)), "pass123", true).unwrap();
    assert!(data.user_db.fetch(&id).unwrap().is_some());
    assert!(data.org_db.fetch(&org_id).unwrap().unwrap().clients.is_empty());
}

#[test]
fn a_taken_email_is_refused() {
    let mut data = portal();
    data.register_user(&person("a@s.org", UserAgent::Admin), "pass123", true).unwrap();
    let again = data.register_user(&person("a@s.org", UserAgent::Owner), "other12", true);
    assert!(matches!(again, Err(LoginEntryError::UsernameExists)));
}

#[test]
fn login_then_session_then_logout() {
    let mut data = portal();
    let id = data.register_user(&person("a@s.org", UserAgent::Admin), "pass123", false).unwrap();
    let ctx: AuthContext = data.login("a@s.org", "pass123", 60_000_000_000).unwrap();
    assert_eq!(ctx.user_id, id);
    assert_eq!(ctx.root_page(), "/orgs");
    let cookie = ctx.auth_token.to_string();
    let found = data.authenticate_context_from_request(Some(cookie.as_str()), true).unwrap().unwrap();
    assert_eq!(found.user_id, id);
    assert_eq!(found.user.email, "a@s.org");
    assert!(data.authenticate_context_from_request(None, true).unwrap().is_none());
    assert!(data.authenticate_context_from_request(Some("garbage"), true).unwrap().is_none());
    data.logout(Some(cookie.as_str())).unwrap();
    assert!(data.authenticate_context(ctx.auth_token, false).unwrap().is_none());
    assert!(matches!(data.login("a@s.org", "wrong", 1), Err(AuthError::IncorrectPassword)));
    assert!(matches!(data.login("b@s.org", "pass123", 1), Err(AuthError::NoUser)));
}

#[test]
fn navigation_by_kind_of_user() {
    let data = portal();
    let user = UserKey(1);
    let staff = data.nav_items_for_agent(&user, &UserAgent::Admin);
    assert_eq!(
        staff,
        vec![
            ("/orgs".to_owned(), "Organisations".to_owned()),
            ("/achievements".to_owned(), "Outstanding Achievements".to_owned()),
        ]
    );
    let teacher = data.nav_items_for_agent(&user, &UserAgent::Associate(OrgKey(2)));
    assert_eq!(teacher, vec![("/org/00000000-0000-0000-0000-000000000002".to_owned(), "Pupils".to_owned())]);
    let pupil = data.nav_items_for_agent(&user, &pupil_of(OrgKey(2)));
    assert_eq!(pupil[0].1, "Sections");
    assert!(pupil[0].0.ends_with("/client/00000000-0000-0000-0000-000000000001"));
    assert!(data.nav_items_for_context(None).is_empty());
}

#[test]
fn section_file_paths() {
    let data = portal();
    let id = SectionKey(3);
    let folder = data.section_path(&id);
    assert_eq!(folder, format!("{}/sections/00000000-0000-0000-0000-000000000003/", data.fs_root));
    assert_eq!(data.path_for_asset(&id, "a.png"), folder + "a.png");
}

#[test]
fn choosing_an_activity_starts_a_section() {
    let mut data = portal();
    let org_id = add_org(&mut data, 1);
    let user = person("p@s.org", pupil_of(org_id));
    let id = data.register_user(&user, "pass123", true).unwrap();
    let section_id = data.select_activity(id, user.clone(), 1, 2).unwrap();
    let section = data.section_db.fetch(&section_id).unwrap().unwrap();
    assert_eq!(section.activity, "prices");
    assert_eq!(section.award, "silver");
    assert_eq!(section.user_id, id);
    match data.user_db.fetch(&id).unwrap().unwrap().user_agent {
        UserAgent::Client { sections, .. } => assert_eq!(sections[1], Some(section_id)),
        _ => panic!("not a pupil"),
    }
    assert!(matches!(data.select_activity(id, user.clone(), 6, 0), Err(SelectActivityError::InvalidSection)));
    assert!(matches!(data.select_activity(id, user.clone(), 1, 3), Err(SelectActivityError::InvalidActivity)));
    let admin = person("x@s.org", UserAgent::Admin);
    assert!(matches!(data.select_activity(id, admin, 0, 0), Err(SelectActivityError::NotAClient)));
}

#[test]
fn password_links_change_the_password_once() {
    let mut data = portal();
    let id = data.register_user(&person("a@s.org", UserAgent::Admin), "first12", true).unwrap();
    let token = data.link_manager.create_link(Link::ChangePassword(id), 60_000_000_000).unwrap();
    data.change_password_by_link(&token, "second2").unwrap();
    assert!(data.login("a@s.org", "second2", 60_000_000_000).is_ok());
    assert!(matches!(data.change_password_by_link(&token, "third33"), Err(LinkActionError::BadLink)));
}

#[test]
fn account_links_create_the_account_once() {
    let mut data = portal();
    let org_id = add_org(&mut data, 0);
    let token = data.link_manager.create_link(Link::CreateUser(UserAgent::Organisation(org_id)), 60_000_000_000).unwrap();
    let form = CreateAccountForm {
        forename: "Hana".to_owned(),
        surname: "Head".to_owned(),
        email: "h@s.org".to_owned(),
        password: "pass123".to_owned(),
        confirm: "pass123".to_owned(),
    };
    let id = data.create_account_by_link(&token, &form).unwrap();
    let ctx = data.login("h@s.org", "pass123", 60_000_000_000).unwrap();
    assert_eq!(ctx.user_id, id);
    assert_eq!(ctx.user.user_agent, UserAgent::Organisation(org_id));
    assert!(matches!(data.create_account_by_link(&token, &form), Err(LinkActionError::BadLink)));
}

#[test]
fn teachers_to_remind() {
    let mut data = portal();
    let org_id = add_org(&mut data, 0);
    let a = data.register_user(&person("a@s.org", UserAgent::Associate(org_id)), "pass123", false).unwrap();
    let mut quiet = person("b@s.org", UserAgent::Associate(org_id));
    quiet.notifications = false;
    data.register_user(&quiet, "pass123", false).unwrap();
    let mut org = data.org_db.fetch(&org_id).unwrap().unwrap();
    assert!(data.notification_emails(&org).0.is_empty());
    org.unreviewed_sections.push(SectionKey(1));
    assert_eq!(data.notification_emails(&org), (vec!["a@s.org".to_owned()], true));
    assert_eq!(org.associates[0], a);
}

#[test]
fn account_entries_list_every_user() {
    let mut data = portal();
    let a = data.register_user(&person("a@s.org", UserAgent::Admin), "pass123", false).unwrap();
    let b = data.register_user(&person("b@s.org", UserAgent::Owner), "pass123", false).unwrap();
    let (entries, complete) = data.user_entries();
    assert!(complete);
    let mut keys: Vec<UserKey> = entries.iter().map(|e| e.0).collect();
    keys.sort_by_key(|k| k.0);
    let mut expected = vec![a, b];
    expected.sort_by_key(|k| k.0);
    assert_eq!(keys, expected);
    assert!(entries.iter().all(|e| e.1.is_some()));
    let org_id = add_org(&mut data, 5);
    let (orgs, _) = data.org_entries();
    assert_eq!(orgs.len(), 1);
    assert_eq!(orgs[0].0, org_id);
    assert_eq!(orgs[0].1.as_ref().unwrap().credits, 5);
}

#[test]
fn pupils_list_shows_the_pupils_of_the_organisation() {
    let mut data = portal();
    let org_id = add_org(&mut data, 3);
    let other = add_org(&mut data, 3);
    let user = person("p@s.org", pupil_of(org_id));
    let p = data.register_user(&user, "pass123", true).unwrap();
    let q = data.register_user(&person("q@s.org", pupil_of(other)), "pass123", true).unwrap();
    let t = data.register_user(&person("t@s.org", UserAgent::Associate(org_id)), "pass123", true).unwrap();
    let bronze = UserAgent::Client { org_id, class: "8B".to_owned(), award: "bronze".to_owned(), sections: [None; 6] };
    let b = data.register_user(&person("b@s.org", bronze), "pass123", true).unwrap();
    let section_id = data.select_activity(p, user.clone(), 1, 2).unwrap();
    let mut section = data.section_db.fetch(&section_id).unwrap().unwrap();
    section.state = SectionState::InReview(5);
    data.section_db.insert(&section_id, &section).unwrap();
    let (rows, complete) = data.client_rows(org_id, &vec![p, q, t, b, UserKey(7)]);
    assert!(complete);
    assert_eq!(rows.len(), 1);
    assert_eq!(rows[0].user_id, p);
    assert_eq!(rows[0].award_name, "Silver");
    assert_eq!(rows[0].unreviewed, 1);
    assert_eq!(rows[0].styles.len(), 6);
    assert_eq!(rows[0].styles[0], "");
    assert_eq!(rows[0].styles[1], "background-color: orange; border: none;");
    assert_eq!(rows[0].sections[1].as_ref().unwrap().activity, "prices");
}

#[test]
fn teachers_list_shows_who_may_be_deleted() {
    let mut data = portal();
    let org_id = add_org(&mut data, 1);
    let t = data.register_user(&person("t@s.org", UserAgent::Associate(org_id)), "pass123", false).unwrap();
    let p = data.register_user(&person("p@s.org", pupil_of(org_id)), "pass123", true).unwrap();
    let (rows, complete) = data.associate_rows(&UserAgent::Organisation(org_id), org_id, &vec![t, p, UserKey(3)]);
    assert!(complete);
    assert_eq!(rows.len(), 1);
    assert_eq!(rows[0].user_id, t);
    assert_eq!(rows[0].user.email, "t@s.org");
    assert!(!rows[0].delete_hidden);
    let (rows, _) = data.associate_rows(&UserAgent::Associate(org_id), org_id, &vec![t]);
    assert!(rows[0].delete_hidden);
    let (rows, _) = data.associate_rows(&UserAgent::Owner, OrgKey::generate(), &vec![t]);
    assert!(rows.is_empty());
}

#[test]
fn chosen_sections_are_read_from_the_store() {
    let mut data = portal();
    let org_id = add_org(&mut data, 1);
    let user = person("p@s.org", pupil_of(org_id));
    let p = data.register_user(&user, "pass123", true).unwrap();
    let section_id = data.select_activity(p, user.clone(), 2, 0).unwrap();
    let (found, complete) = data.chosen_sections(&[None, None, Some(section_id), Some(SectionKey(9)), None, None]);
    assert!(complete);
    assert_eq!(found.len(), 6);
    assert_eq!(found[2].as_ref().unwrap().section_index, 2);
    assert!(found[0].is_none());
    assert!(found[3].is_none());
}

#[test]
fn section_rows_and_outstanding_sections() {
    let mut data = portal();
    let org_id = add_org(&mut data, 1);
    let user = person("p@s.org", pupil_of(org_id));
    let p = data.register_user(&user, "pass123", true).unwrap();
    let section_id = data.select_activity(p, user.clone(), 1, 2).unwrap();
    let (ids, complete) = data.outstanding_section_ids();
    assert!(complete);
    assert!(ids.is_empty());
    let mut section = data.section_db.fetch(&section_id).unwrap().unwrap();
    section.outstanding = true;
    data.section_db.insert(&section_id, &section).unwrap();
    let (ids, complete) = data.outstanding_section_ids();
    assert!(complete);
    assert_eq!(ids, vec![section_id]);
    let (rows, complete) = data.section_rows(&vec![SectionKey(4), section_id]);
    assert!(complete);
    assert_eq!(rows.len(), 1);
    assert_eq!(rows[0].section_id, section_id);
    assert_eq!(rows[0].user.email, "p@s.org");
    assert_eq!(rows[0].award_name, "Silver Senior Duke");
    assert_eq!(rows[0].section_name, "Money Skills");
    assert_eq!(rows[0].activity_name, "Compare Prices");
}

#[test]
fn due_reminders_mark_the_organisations_reminded() {
    let mut data = portal();
    let org_id = add_org(&mut data, 0);
    data.register_user(&person("a@s.org", UserAgent::Associate(org_id)), "pass123", false).unwrap();
    let mut org = data.org_db.fetch(&org_id).unwrap().unwrap();
    org.unreviewed_sections.push(SectionKey(1));
    org.unreviewed_sections.push(SectionKey(2));
    org.last_notification = 100;
    org.notification_interval = 50;
    data.org_db.insert(&org_id, &org).unwrap();
    let (reminders, complete) = data.due_reminders(150);
    assert!(complete);
    assert!(reminders.is_empty());
    let (reminders, complete) = data.due_reminders(151);
    assert!(complete);
    assert_eq!(reminders.len(), 1);
    assert_eq!(reminders[0].org_id, org_id);
    assert_eq!(reminders[0].subject, "There are 2 new unreviewed sections");
    assert_eq!(reminders[0].emails, vec!["a@s.org".to_owned()]);
    assert_eq!(reminders[0].org.last_notification, 100);
    assert_eq!(data.org_db.fetch(&org_id).unwrap().unwrap().last_notification, 151);
    let (reminders, _) = data.due_reminders(190);
    assert!(reminders.is_empty());
}

fn deletion(orgs: bool, credits: bool, pupils: bool) -> duke_portal::forms::DeleteDataForm {
    let pick = |b: bool| if b { Some("on".to_owned()) } else { None };
    duke_portal::forms::DeleteDataForm {
        delete_pupils: pick(pupils),
        delete_credits: pick(credits),
        delete_orgs: pick(orgs),
        password: "pass123".to_owned(),
    }
}

#[test]
fn deleting_data_as_the_form_asks() {
    let mut data = portal();
    let org_id = add_org(&mut data, 4);
    let p = data.register_user(&person("p@s.org", pupil_of(org_id)), "pass123", true).unwrap();
    let t = data.register_user(&person("t@s.org", UserAgent::Associate(org_id)), "pass123", true).unwrap();
    assert!(data.delete_data(&deletion(false, false, false)));
    assert!(data.user_db.fetch(&p).unwrap().is_some());
    assert!(data.delete_data(&deletion(false, true, false)));
    let org = data.org_db.fetch(&org_id).unwrap().unwrap();
    assert_eq!(org.credits, 0);
    assert_eq!(org.clients, vec![p]);
    assert!(data.delete_data(&deletion(false, false, true)));
    assert!(data.user_db.fetch(&p).unwrap().is_none());
    assert!(data.user_db.fetch(&t).unwrap().is_some());
    assert!(data.org_db.fetch(&org_id).unwrap().unwrap().clients.is_empty());
    assert!(data.delete_data(&deletion(true, false, false)));
    assert!(data.org_db.fetch(&org_id).unwrap().is_none());
    assert!(data.user_db.fetch(&t).unwrap().is_some());
}

#[test]
fn a_registered_account_logs_in_with_its_password_only() {
    let mut data = portal();
    let user = person("r@s.org", UserAgent::Admin);
    let id = data.register_user(&user, "right12", false).unwrap();
    let ctx = data.login("r@s.org", "right12", 60_000_000_000).unwrap();
    assert_eq!(ctx.user_id, id);
    assert_eq!(ctx.user.email, user.email);
    assert_eq!(ctx.user.user_agent, user.user_agent);
    assert!(matches!(data.login("r@s.org", "wrong12", 60_000_000_000), Err(AuthError::IncorrectPassword)));
}

#[test]
fn after_a_password_link_only_the_new_password_logs_in() {
    let mut data = portal();
    let id = data.register_user(&person("c@s.org", UserAgent::Admin), "first12", true).unwrap();
    let token = data.link_manager.create_link(Link::ChangePassword(id), 60_000_000_000).unwrap();
    data.change_password_by_link(&token, "second2").unwrap();
    assert_eq!(data.login("c@s.org", "second2", 60_000_000_000).unwrap().user_id, id);
    assert!(matches!(data.login("c@s.org", "first12", 60_000_000_000), Err(AuthError::IncorrectPassword)));
}

#[test]
fn after_an_account_link_only_the_form_password_logs_in() {
    let mut data = portal();
    let org_id = add_org(&mut data, 0);
    let token = data.link_manager.create_link(Link::CreateUser(UserAgent::Associate(org_id)), 60_000_000_000).unwrap();
    let form = CreateAccountForm {
        forename: "Tia".to_owned(),
        surname: "Teach".to_owned(),
        email: "tia@s.org".to_owned(),
        password: "pass123".to_owned(),
        confirm: "pass123".to_owned(),
    };
    let id = data.create_account_by_link(&token, &form).unwrap();
    let ctx = data.login("tia@s.org", "pass123", 60_000_000_000).unwrap();
    assert_eq!(ctx.user_id, id);
    assert_eq!(ctx.user.forename, "Tia");
    assert_eq!(ctx.user.user_agent, UserAgent::Associate(org_id));
    assert!(ctx.user.notifications);
    assert!(matches!(data.login("tia@s.org", "pass124", 60_000_000_000), Err(AuthError::IncorrectPassword)));
}

#[test]
fn a_password_reset_link_changes_the_password() {
    let mut data = portal();
    let id = data.register_user(&person("z@s.org", UserAgent::Admin), "first12", false).unwrap();
    assert!(data.password_reset_link("nobody@s.org", 60_000_000_000).unwrap().is_none());
    let token = data.password_reset_link("z@s.org", 60_000_000_000).unwrap().unwrap();
    match data.link_manager.fetch(&token).unwrap().unwrap().link {
        Link::ChangePassword(user_id) => assert_eq!(user_id, id),
        _ => panic!("not a password link"),
    }
    data.change_password_by_link(&token, "second2").unwrap();
    assert_eq!(data.login("z@s.org", "second2", 60_000_000_000).unwrap().user_id, id);
}

#[test]
fn refused_links_say_why() {
    let mut data = portal();
    let org_id = add_org(&mut data, 0);
    let id = data.register_user(&person("l@s.org", UserAgent::Admin), "first12", false).unwrap();
    let account = data.link_manager.create_link(Link::CreateUser(UserAgent::Associate(org_id)), 60_000_000_000).unwrap();
    assert!(matches!(data.change_password_by_link(&account, "second2"), Err(LinkActionError::BadLink)));
    let password = data.link_manager.create_link(Link::ChangePassword(id), 60_000_000_000).unwrap();
    let form = CreateAccountForm {
        forename: "Ed".to_owned(),
        surname: "Ward".to_owned(),
        email: "l@s.org".to_owned(),
        password: "pass123".to_owned(),
        confirm: "pass123".to_owned(),
    };
    assert!(matches!(data.create_account_by_link(&password, &form), Err(LinkActionError::BadLink)));
    assert!(matches!(
        data.create_account_by_link(&account, &form),
        Err(LinkActionError::Register(LoginEntryError::UsernameExists))
    ));
    let ghost = data.link_manager.create_link(Link::ChangePassword(UserKey(5)), 60_000_000_000).unwrap();
    assert!(matches!(data.change_password_by_link(&ghost, "second2"), Err(LinkActionError::NoUser)));
}

#[test]
fn teachers_are_listed_in_the_order_of_the_list() {
    let mut data = portal();
    let org_id = add_org(&mut data, 1);
    let a = data.register_user(&person("a@s.org", UserAgent::Associate(org_id)), "pass123", false).unwrap();
    let b = data.register_user(&person("b@s.org", UserAgent::Associate(org_id)), "pass123", false).unwrap();
    let p = data.register_user(&person("p@s.org", pupil_of(org_id)), "pass123", true).unwrap();
    let (rows, complete) = data.associate_rows(&UserAgent::Organisation(org_id), org_id, &vec![b, p, a]);
    assert!(complete);
    let shown: Vec<UserKey> = rows.iter().map(|r| r.user_id).collect();
    assert_eq!(shown, vec![b, a]);
    let (rows, _) = data.associate_rows(&UserAgent::Organisation(org_id), org_id, &vec![a, b]);
    let shown: Vec<UserKey> = rows.iter().map(|r| r.user_id).collect();
    assert_eq!(shown, vec![a, b]);
}

fn no_sections() -> Vec<Option<Section>> {
    (0..6).map(|_| None).collect()
}

#[test]
fn one_row_per_fetched_user() {
    let data = portal();
    let org_id = OrgKey(2);
    let teacher = person("t@s.org", UserAgent::Associate(org_id));
    let row = associate_row(&UserAgent::Organisation(org_id), org_id, UserKey(5), Some(teacher.clone())).unwrap();
    assert_eq!(row.user_id, UserKey(5));
    assert!(!row.delete_hidden);
    assert!(associate_row(&UserAgent::Organisation(org_id), OrgKey(3), UserKey(5), Some(teacher.clone())).is_none());
    assert!(associate_row(&UserAgent::Organisation(org_id), org_id, UserKey(5), None).is_none());
    let pupil = person("p@s.org", pupil_of(org_id));
    let row = client_row(org_id, UserKey(6), pupil.clone(), no_sections(), &data.awards).unwrap();
    assert_eq!(row.user_id, UserKey(6));
    assert_eq!(row.award_name, "Silver");
    assert_eq!(row.unreviewed, 0);
    assert_eq!(row.styles, vec![String::new(); 6]);
    assert!(client_row(OrgKey(3), UserKey(6), pupil, no_sections(), &data.awards).is_none());
    assert!(client_row(org_id, UserKey(5), teacher, no_sections(), &data.awards).is_none());
}

#[test]
fn a_section_row_names_award_section_and_activity() {
    let mut data = portal();
    let org_id = add_org(&mut data, 1);
    let user = person("p@s.org", pupil_of(org_id));
    let p = data.register_user(&user, "pass123", true).unwrap();
    let section_id = data.select_activity(p, user.clone(), 1, 2).unwrap();
    let section = data.section_db.fetch(&section_id).unwrap().unwrap();
    let row = section_row(section_id, section, user.clone(), &data.awards).unwrap();
    assert_eq!(row.section_id, section_id);
    assert_eq!(row.award_name, "Silver Senior Duke");
    assert_eq!(row.section_name, "Money Skills");
    assert_eq!(row.activity_name, "Compare Prices");
    let mut foreign = data.section_db.fetch(&section_id).unwrap().unwrap();
    foreign.award = "bronze".to_owned();
    assert!(section_row(section_id, foreign, user, &data.awards).is_none());
}

#[test]
fn a_read_tells_what_was_found_and_whether_the_store_answered() {
    assert_eq!(read_outcome::<u32>(Ok(Some(4))), (Some(4), true));
    assert_eq!(read_outcome::<u32>(Ok(None)), (None, true));
    let refused = StoreError::DeserializeError(Box::new(bincode::ErrorKind::SizeLimit));
    assert_eq!(read_outcome::<u32>(Err(refused)), (None, true));
}

#[test]
fn a_pupil_needs_a_credit() {
    let mut org = Org::new("Hillside".to_owned());
    assert!(!org.may_add_client());
    org.add_credits(1);
    assert!(org.may_add_client());
}

#[test]
fn refused_choices_leave_the_pupil_as_they_were() {
    let mut data = portal();
    let org_id = add_org(&mut data, 1);
    let user = person("p@s.org", pupil_of(org_id));
    let id = data.register_user(&user, "pass123", true).unwrap();
    assert!(matches!(data.select_activity(id, user.clone(), 6, 0), Err(SelectActivityError::InvalidSection)));
    assert!(matches!(data.select_activity(id, user.clone(), 1, 3), Err(SelectActivityError::InvalidActivity)));
    match data.user_db.fetch(&id).unwrap().unwrap().user_agent {
        UserAgent::Client { sections, .. } => assert_eq!(sections, [None; 6]),
        _ => panic!("not a pupil"),
    }
    let (entries, complete) = data.section_db.entries();
    assert!(complete);
    assert!(entries.is_empty());
}

#[test]
fn a_refused_login_opens_no_session() {
    let mut data = portal();
    let org_id = add_org(&mut data, 1);
    data.register_user(&person("p@s.org", pupil_of(org_id)), "pass123", true).unwrap();
    assert!(matches!(data.login(&"p@s.org".to_owned(), "wrong", 60_000_000_000), Err(AuthError::IncorrectPassword)));
    assert!(matches!(data.login(&"q@s.org".to_owned(), "pass123", 60_000_000_000), Err(AuthError::NoUser)));
    let (sessions, complete) = data.auth_manager.db().entries();
    assert!(complete);
    assert!(sessions.is_empty());
    assert!(data.login(&"p@s.org".to_owned(), "pass123", 60_000_000_000).is_ok());
    assert_eq!(data.auth_manager.db().entries().0.len(), 1);
}

#[test]
fn registering_and_deleting_a_teacher_restores_the_organisation() {
    let mut data = portal();
    let org_id = add_org(&mut data, 1);
    let before = data.org_db.fetch(&org_id).unwrap().unwrap();
    let t = data.register_user(&person("t@s.org", UserAgent::Associate(org_id)), "pass123", false).unwrap();
    let org = data.org_db.fetch(&org_id).unwrap().unwrap();
    assert_eq!(org.associates, vec![t]);
    assert_eq!(org.credits, 1);
    data.delete_user(&t).unwrap();
    let after = data.org_db.fetch(&org_id).unwrap().unwrap();
    assert_eq!(after.associates, before.associates);
    assert_eq!(after.credits, before.credits);
    assert!(matches!(data.login_db.authenticate("t@s.org", "pass123"), Err(AuthError::NoUser)));
}

#[test]
fn deleting_a_user_twice_changes_nothing_the_second_time() {
    let mut data = portal();
    let org_id = add_org(&mut data, 2);
    let p = data.register_user(&person("p@s.org", pupil_of(org_id)), "pass123", true).unwrap();
    data.delete_user(&p).unwrap();
    let org = data.org_db.fetch(&org_id).unwrap().unwrap();
    data.delete_user(&p).unwrap();
    let again = data.org_db.fetch(&org_id).unwrap().unwrap();
    assert_eq!(again.clients, org.clients);
    assert_eq!(again.credits, org.credits);
    assert_eq!(again.credits, 2);
    assert!(data.user_db.fetch(&p).unwrap().is_none());
}

#[test]
fn an_email_with_a_login_cannot_register_again() {
    let mut data = portal();
    let org_id = add_org(&mut data, 2);
    data.register_user(&person("p@s.org", pupil_of(org_id)), "pass123", true).unwrap();
    let before = data.org_db.fetch(&org_id).unwrap().unwrap();
    let again = data.register_user(&person("p@s.org", pupil_of(org_id)), "other12", true);
    assert!(matches!(again, Err(LoginEntryError::UsernameExists)));
    let after = data.org_db.fetch(&org_id).unwrap().unwrap();
    assert_eq!(after.clients, before.clients);
    assert_eq!(after.credits, 1);
    assert_eq!(data.user_db.entries().0.len(), 1);
}

#[test]
fn deleting_pupils_removes_their_logins_and_places() {
    let mut data = portal();
    let org_id = add_org(&mut data, 3);
    let p = data.register_user(&person("p@s.org", pupil_of(org_id)), "pass123", true).unwrap();
    data.register_user(&person("t@s.org", UserAgent::Associate(org_id)), "pass123", true).unwrap();
    assert!(data.delete_pupils());
    assert!(data.user_db.fetch(&p).unwrap().is_none());
    assert!(matches!(data.login_db.authenticate("p@s.org", "pass123"), Err(AuthError::NoUser)));
    assert!(data.login_db.authenticate("t@s.org", "pass123").is_ok());
    let org = data.org_db.fetch(&org_id).unwrap().unwrap();
    assert!(org.clients.is_empty());
    assert_eq!(org.credits, 3);
    assert_eq!(org.associates.len(), 1);
}

#[test]
fn sweeps_over_readable_stores_succeed() {
    let mut data = portal();
    let org_id = add_org(&mut data, 3);
    assert!(data.clear_credits());
    assert_eq!(data.org_db.fetch(&org_id).unwrap().unwrap().credits, 0);
    assert!(data.delete_all_orgs());
    assert!(data.org_db.fetch(&org_id).unwrap().is_none());
    let (orgs, complete) = data.org_walk();
    assert!(complete);
    assert!(orgs.is_empty());
    let (users, complete) = data.user_walk();
    assert!(complete);
    assert!(users.is_empty());
}

#[test]
fn a_refused_password_link_changes_no_password() {
    let mut data = portal();
    let id = data.register_user(&person("c@s.org", UserAgent::Admin), "first12", true).unwrap();
    assert!(matches!(data.change_password_by_link(&duke_portal::keys::LinkToken(7), "second2"), Err(LinkActionError::BadLink)));
    let token = data.link_manager.create_link(Link::ChangePassword(UserKey(99)), 60_000_000_000).unwrap();
    assert!(matches!(data.change_password_by_link(&token, "second2"), Err(LinkActionError::NoUser)));
    assert_eq!(data.login("c@s.org", "first12", 60_000_000_000).unwrap().user_id, id);
}
