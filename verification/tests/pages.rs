use duke_portal::accounts::{
    account_target_url, accounts_listing, delete_button_hidden, matches_search, order_by_privilege, role_name,
    AccountListing,
};
use duke_portal::forms::{
    AccountsQuery, AddAdminForm, AddAssociateForm, AddClientForm, AddOrgForm, ChangePasswordForm,
    CreateAccountForm, DeleteDataForm, LoginForm,
};
use duke_portal::keys::{OrgKey, UserKey};
use duke_portal::notifications::{notification_subject, should_notify};
use duke_portal::page::{
    is_associate_of, is_client_of, may_set_notifications, nav_item_class, notifications_label, section_style,
    section_styles, user_page_access, visible_path_items, UserPageAccess,
};
use duke_portal::section::{AwardInfo, Section, SectionState};
use duke_portal::upload::{is_image_extension, numbered_filename, upload_filename, FieldAction};
use duke_portal::user::{Privilege, User, UserAgent};

fn person(forename: &str, surname: &str, email: &str, agent: UserAgent) -> User {
    User {
        email: email.to_owned(),
        forename: forename.to_owned(),
        surname: surname.to_owned(),
        notifications: true,
        user_agent: agent,
    }
}

fn pupil_of(org: u128) -> UserAgent {
    UserAgent::Client { org_id: OrgKey(org), class: "8A".to_owned(), award: "gold".to_owned(), sections: [None; 6] }
}

#[test]
fn accounts_are_ordered_by_privilege_keeping_ties_in_order() {
    let users = vec![
        (UserKey(1), person("P", "One", "p1@x.y", pupil_of(1))),
        (UserKey(2), person("A", "Two", "a2@x.y", UserAgent::Admin)),
        (UserKey(3), person("T", "Three", "t3@x.y", UserAgent::Associate(OrgKey(1)))),
        (UserKey(4), person("P", "Four", "p4@x.y", pupil_of(1))),
        (UserKey(5), person("O", "Five", "o5@x.y", UserAgent::Owner)),
        (UserKey(6), person("H", "Six", "h6@x.y", UserAgent::Organisation(OrgKey(1)))),
    ];
    let ordered: Vec<u128> = order_by_privilege(users).iter().map(|e| e.0 .0).collect();
    assert_eq!(ordered, vec![5, 2, 3, 6, 1, 4]);
    assert!(order_by_privilege(Vec::new()).is_empty());
}

#[test]
fn searches_match_names_and_emails() {
    let ada = person("Ada", "Lovelace", "ada@math.org", UserAgent::Admin);
    assert!(matches_search(&ada, "love"));
    assert!(matches_search(&ada, "ADA LOVE"));
    assert!(matches_search(&ada, "math.org"));
    assert!(!matches_search(&ada, "babbage"));
    let shouty = person("Bo", "Bee", "BO@X.Y", UserAgent::Admin);
    assert!(!matches_search(&shouty, "bo@x"));
}

#[test]
fn listing_selects_and_orders() {
    let entries = vec![
        (UserKey(1), Some(person("Pat", "Pupil", "pat@x.y", pupil_of(1)))),
        (UserKey(2), None),
        (UserKey(3), Some(person("Ann", "Admin", "ann@x.y", UserAgent::Admin))),
        (UserKey(4), Some(person("Pam", "Pupil", "pam@x.y", pupil_of(1)))),
    ];
    let (all, invalid) = accounts_listing(entries.clone(), &AccountListing::All);
    assert_eq!(all.iter().map(|e| e.0 .0).collect::<Vec<_>>(), vec![3, 1, 4]);
    assert_eq!(invalid, vec![UserKey(2)]);
    let (found, invalid) = accounts_listing(entries.clone(), &AccountListing::Search("pupil".to_owned()));
    assert_eq!(found.iter().map(|e| e.0 .0).collect::<Vec<_>>(), vec![1, 4]);
    assert!(invalid.is_empty());
    let (none, invalid) = accounts_listing(entries, &AccountListing::Nothing);
    assert!(none.is_empty() && invalid.is_empty());
}

#[test]
fn account_rows() {
    let user = UserKey(7);
    assert_eq!(account_target_url(user, &UserAgent::Owner), "/orgs");
    assert_eq!(account_target_url(user, &UserAgent::Organisation(OrgKey(2))), "/org/00000000-0000-0000-0000-000000000002");
    assert_eq!(role_name(&UserAgent::Organisation(OrgKey(2))), "Organisation Administrator");
    assert_eq!(role_name(&pupil_of(1)), "Pupil");
    assert!(delete_button_hidden(user, &UserAgent::Admin, user, &pupil_of(1)));
    assert!(delete_button_hidden(user, &UserAgent::Admin, UserKey(8), &UserAgent::Admin));
    assert!(!delete_button_hidden(user, &UserAgent::Admin, UserKey(8), &pupil_of(1)));
    assert!(!delete_button_hidden(user, &UserAgent::Owner, UserKey(8), &UserAgent::Admin));
}

#[test]
fn accounts_query_modes() {
    let all = AccountsQuery { search: None, view_all: Some(true) };
    assert_eq!(all.listing(), AccountListing::All);
    assert!(all.display_user_table());
    assert!(!all.not_viewing_all());
    let search = AccountsQuery { search: Some("ann".to_owned()), view_all: None };
    assert_eq!(search.listing(), AccountListing::Search("ann".to_owned()));
    assert!(search.display_user_table());
    let blank = AccountsQuery { search: Some("  ".to_owned()), view_all: Some(false) };
    assert_eq!(blank.listing(), AccountListing::Nothing);
    let nothing = AccountsQuery { search: None, view_all: None };
    assert!(!nothing.display_user_table());
    assert!(nothing.not_viewing_all());
}

#[test]
fn user_page_rules() {
    let me = UserKey(1);
    let other = UserKey(2);
    assert_eq!(
        user_page_access(me, &pupil_of(1), me, &pupil_of(1)),
        UserPageAccess::Granted { manage_notifications: true }
    );
    assert_eq!(user_page_access(me, &pupil_of(1), other, &pupil_of(1)), UserPageAccess::Denied);
    assert_eq!(
        user_page_access(me, &UserAgent::Associate(OrgKey(1)), other, &pupil_of(1)),
        UserPageAccess::Granted { manage_notifications: false }
    );
    assert_eq!(user_page_access(me, &UserAgent::Associate(OrgKey(2)), other, &pupil_of(1)), UserPageAccess::Denied);
    assert_eq!(
        user_page_access(me, &UserAgent::Admin, other, &UserAgent::Owner),
        UserPageAccess::Denied
    );
    assert_eq!(
        user_page_access(me, &UserAgent::Owner, other, &UserAgent::Admin),
        UserPageAccess::Granted { manage_notifications: true }
    );
    assert_eq!(
        user_page_access(me, &UserAgent::Admin, other, &UserAgent::Admin),
        UserPageAccess::Denied
    );
    assert!(may_set_notifications(me, &UserAgent::Associate(OrgKey(1)), other, &pupil_of(1)));
    assert!(!may_set_notifications(me, &UserAgent::Admin, other, &UserAgent::Owner));
    assert!(may_set_notifications(me, &UserAgent::Admin, me, &UserAgent::Admin));
    assert_eq!(notifications_label(true), "On");
    assert_eq!(notifications_label(false), "Off");
}

#[test]
fn path_header_items_by_level() {
    let items = vec![
        ("/orgs".to_owned(), "Organisations".to_owned(), Privilege::RootLevel),
        ("/org/1".to_owned(), "Hillside".to_owned(), Privilege::OrgLevel),
    ];
    assert_eq!(
        visible_path_items(&Privilege::OrgLevel, &items),
        vec![("/org/1".to_owned(), "Hillside".to_owned())]
    );
    assert_eq!(visible_path_items(&Privilege::RootLevel, &items).len(), 2);
    assert!(visible_path_items(&Privilege::ClientLevel, &items).is_empty());
}

#[test]
fn org_navigation_and_styles() {
    assert_eq!(nav_item_class("/org/1/clients", "/org/1/clients"), "org-nav-item-selected");
    assert_eq!(nav_item_class("/org/1/clients", "/org/1/associates"), "org-nav-item");
    assert_eq!(section_style(&SectionState::InReview(3), true), "background-color: orange; border: 1px solid pink;");
    assert_eq!(section_style(&SectionState::Completed, false), "background-color: green; border: none;");
    let found = |state: SectionState, outstanding: bool| {
        let mut s = Section::new(0, "gold".to_owned(), "gold_volunteering_0".to_owned(), UserKey(1));
        s.state = state;
        s.outstanding = outstanding;
        Some(s)
    };
    let (styles, in_review) = section_styles(&vec![
        found(SectionState::InReview(1), false),
        None,
        found(SectionState::InProgress, false),
        found(SectionState::InReview(2), true),
    ]);
    assert_eq!(in_review, 2);
    assert_eq!(styles[1], "");
    assert_eq!(styles[2], "background-color: rgb(175, 175, 175); border: none;");
    assert!(is_client_of(&pupil_of(1), OrgKey(1)));
    assert!(!is_client_of(&pupil_of(1), OrgKey(2)));
    assert!(is_associate_of(&UserAgent::Associate(OrgKey(3)), OrgKey(3)));
    assert!(!is_associate_of(&UserAgent::Organisation(OrgKey(3)), OrgKey(3)));
}

#[test]
fn person_forms_report_the_first_problem() {
    let good = AddAdminForm { forename: "Ann".to_owned(), surname: "Lee".to_owned(), email: "a@b.c".to_owned() };
    assert!(good.problem().is_none());
    assert_eq!(good.to_user().user_agent, UserAgent::Admin);
    let bad = AddAdminForm { forename: " ".to_owned(), surname: "<".to_owned(), email: "x".to_owned() };
    assert_eq!(bad.problem().unwrap(), "Invalid forename provided");
    let teacher = AddAssociateForm { forename: "Ann".to_owned(), surname: "Lee".to_owned(), email: "nope".to_owned() };
    assert_eq!(teacher.problem().unwrap(), "Invalid teacher email provided");
    assert_eq!(teacher.to_user(OrgKey(4)).user_agent, UserAgent::Associate(OrgKey(4)));
}

#[test]
fn pupil_form_picks_the_award() {
    let awards = AwardInfo::awards();
    let form = AddClientForm {
        forename: "Pat".to_owned(),
        surname: "Lee".to_owned(),
        email: "p@b.c".to_owned(),
        class: "9A".to_owned(),
        award_index: 1,
    };
    assert!(form.is_valid());
    let user = form.to_user(OrgKey(2), &awards).unwrap();
    assert_eq!(user.user_agent, UserAgent::Client {
        org_id: OrgKey(2),
        class: "9A".to_owned(),
        award: "gold".to_owned(),
        sections: [None; 6],
    });
    let beyond = AddClientForm { award_index: 2, ..form.clone() };
    assert!(beyond.to_user(OrgKey(2), &awards).is_none());
    let bad = AddClientForm { class: "".to_owned(), ..form };
    assert!(!bad.is_valid());
}

#[test]
fn password_forms() {
    let mismatch = ChangePasswordForm { password: "abc".to_owned(), confirm: "abd".to_owned() };
    assert_eq!(mismatch.problem().unwrap(), "Passwords do not match!");
    let any = ChangePasswordForm { password: "pa$$word#1".to_owned(), confirm: "pa$$word#1".to_owned() };
    assert!(any.problem().is_none());
    let fine = ChangePasswordForm { password: "abc123".to_owned(), confirm: "abc123".to_owned() };
    assert!(fine.problem().is_none());
    let blank = ChangePasswordForm { password: "  ".to_owned(), confirm: "  ".to_owned() };
    assert_eq!(blank.problem().unwrap(), "Invalid password string!");
    let empty = ChangePasswordForm { password: "".to_owned(), confirm: "".to_owned() };
    assert_eq!(empty.problem().unwrap(), "Invalid password string!");
    let account = CreateAccountForm {
        forename: "".to_owned(),
        surname: "Lee".to_owned(),
        email: "a@b.c".to_owned(),
        password: "abc123".to_owned(),
        confirm: "abc123".to_owned(),
    };
    assert_eq!(account.problem().unwrap(), "Invalid user details!");
    assert!(LoginForm { username: "u".to_owned(), password: "p".to_owned() }.is_filled());
    assert!(!LoginForm { username: "".to_owned(), password: "p".to_owned() }.is_filled());
    assert!(AddOrgForm { name: "Hillside School".to_owned() }.is_valid());
    assert!(!AddOrgForm { name: "".to_owned() }.is_valid());
}

#[test]
fn deletion_reports() {
    let form = |p: bool, c: bool, o: bool| DeleteDataForm {
        delete_pupils: if p { Some("on".to_owned()) } else { None },
        delete_credits: if c { Some("on".to_owned()) } else { None },
        delete_orgs: if o { Some("on".to_owned()) } else { None },
        password: "x".to_owned(),
    };
    assert_eq!(form(false, false, false).deletion_info(), "You did not select any data to delete!");
    assert!(form(false, false, false).nothing_selected());
    assert!(!form(true, false, false).nothing_selected());
    assert_eq!(form(true, false, false).deletion_info(), "You have deleted the following data: <b>pupils</b>");
    assert_eq!(
        form(true, true, true).deletion_info(),
        "You have deleted the following data: <b>organisations</b>"
    );
    assert_eq!(
        form(true, true, false).deletion_info(),
        "You have deleted the following data: <b>credits</b>, <b>pupils</b>"
    );
    assert_eq!(form(false, true, false).deletion_info(), "You have deleted the following data: <b>credits</b>");
}

#[test]
fn uploads() {
    assert!(upload_filename("   ").is_none());
    assert_eq!(upload_filename("my/pic?.png").unwrap(), "mypic.png");
    assert_eq!(numbered_filename("pic", 3, "png"), "pic3.png");
    assert!(is_image_extension("jpeg"));
    assert!(!is_image_extension("pdf"));
    let mut s = Section::new(0, "gold".to_owned(), "brand".to_owned(), UserKey(1));
    assert_eq!(s.apply_field("plan", "  my plan \n"), FieldAction::Nothing);
    assert_eq!(s.plan, "my plan");
    assert_eq!(s.apply_field("reflection", "done"), FieldAction::Nothing);
    assert_eq!(s.reflection, "done");
    assert_eq!(s.apply_field("delete", " old.png "), FieldAction::DeleteFile("old.png".to_owned()));
    assert_eq!(s.apply_field("delete", "   "), FieldAction::Nothing);
    assert_eq!(s.apply_field("other", "x"), FieldAction::Nothing);
    assert_eq!(s.plan, "my plan");
}

#[test]
fn reminders() {
    let mut teacher = person("T", "T", "t@x.y", UserAgent::Associate(OrgKey(1)));
    assert!(should_notify(&teacher, 2));
    assert!(!should_notify(&teacher, 0));
    teacher.notifications = false;
    assert!(!should_notify(&teacher, 2));
    assert_eq!(notification_subject(3), "There are 3 new unreviewed sections");
}

#[test]
fn pupils_work_is_open_to_themselves_and_their_organisation() {
    let pupil = pupil_of(5);
    assert!(duke_portal::page::may_work_on(UserKey(9), &pupil, UserKey(9), &pupil));
    assert!(duke_portal::page::may_work_on(UserKey(1), &UserAgent::Associate(OrgKey(5)), UserKey(9), &pupil));
    assert!(!duke_portal::page::may_work_on(UserKey(1), &UserAgent::Associate(OrgKey(6)), UserKey(9), &pupil));
    assert!(!duke_portal::page::may_work_on(UserKey(1), &pupil_of(5), UserKey(9), &pupil));
    assert!(duke_portal::page::may_work_on(UserKey(1), &UserAgent::Admin, UserKey(9), &pupil));
}

#[test]
fn upload_names_are_kept_when_safe_and_cut_when_long() {
    assert_eq!(upload_filename("report 2.pdf").unwrap(), "report 2.pdf");
    assert_eq!(upload_filename("a<b>|c\u{1}.txt").unwrap(), "abc.txt");
    let long = "x".repeat(300);
    assert_eq!(upload_filename(&long).unwrap(), "x".repeat(255));
}
