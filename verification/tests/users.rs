use duke_portal::keys::{OrgKey, SectionKey, UserKey};
use duke_portal::user::{Privilege, User, UserAgent};

fn pupil(org: u128) -> UserAgent {
    UserAgent::Client {
        org_id: OrgKey(org),
        class: "7B".to_owned(),
        award: "silver".to_owned(),
        sections: [None; 6],
    }
}

fn person(agent: UserAgent) -> User {
    User {
        email: "a@b.c".to_owned(),
        forename: "Ada".to_owned(),
        surname: "Lovelace".to_owned(),
        notifications: true,
        user_agent: agent,
    }
}

#[test]
fn full_name() {
    assert_eq!(person(UserAgent::Owner).name(), "Ada Lovelace");
}

#[test]
fn privilege_levels() {
    assert_eq!(UserAgent::Owner.privilege(), Privilege::RootLevel);
    assert_eq!(UserAgent::Admin.privilege(), Privilege::AdminLevel);
    assert_eq!(UserAgent::Organisation(OrgKey(1)).privilege(), Privilege::OrgLevel);
    assert_eq!(UserAgent::Associate(OrgKey(1)).privilege(), Privilege::OrgLevel);
    assert_eq!(pupil(1).privilege(), Privilege::ClientLevel);
    assert_eq!(Privilege::RootLevel.magnitude(), 4);
    assert_eq!(Privilege::AdminLevel.magnitude(), 3);
    assert_eq!(Privilege::OrgLevel.magnitude(), 2);
    assert_eq!(Privilege::ClientLevel.magnitude(), 1);
    assert!(Privilege::RootLevel.is_root());
    assert!(!Privilege::AdminLevel.is_root());
}

#[test]
fn names_of_kinds() {
    assert_eq!(UserAgent::Admin.agent_string(), "Global Administrator");
    assert_eq!(pupil(1).agent_string(), "Pupil");
    assert_eq!(UserAgent::Organisation(OrgKey(1)).lower_string(), "organisation administrator");
    assert_eq!(UserAgent::Associate(OrgKey(1)).lower_string(), "teacher");
}

#[test]
fn kinds_and_orgs() {
    assert!(pupil(3).is_client());
    assert!(!UserAgent::Admin.is_client());
    assert!(UserAgent::Owner.is_owner());
    assert_eq!(pupil(3).org_id(), Some(OrgKey(3)));
    assert_eq!(UserAgent::Associate(OrgKey(4)).org_id(), Some(OrgKey(4)));
    assert_eq!(UserAgent::Admin.org_id(), None);
}

#[test]
fn landing_pages() {
    let user = UserKey(5);
    assert_eq!(UserAgent::Owner.root_page(user), "/orgs");
    assert_eq!(UserAgent::Associate(OrgKey(2)).root_page(user), "/org/00000000-0000-0000-0000-000000000002");
    assert_eq!(
        pupil(2).root_page(user),
        "/org/00000000-0000-0000-0000-000000000002/client/00000000-0000-0000-0000-000000000005"
    );
}

#[test]
fn staff_permissions() {
    for agent in [UserAgent::Owner, UserAgent::Admin] {
        assert!(agent.can_view_accounts());
        assert!(agent.can_view_orgs());
        assert!(agent.can_delete_orgs());
        assert!(agent.can_view_outstanding());
        assert!(agent.can_delete_invalid_users());
        assert!(agent.can_view_org(&OrgKey(9)));
    }
    assert!(UserAgent::Owner.can_add_admin());
    assert!(!UserAgent::Admin.can_add_admin());
    assert!(!UserAgent::Associate(OrgKey(1)).can_view_accounts());
}

#[test]
fn org_permissions() {
    let head = UserAgent::Organisation(OrgKey(1));
    let teacher = UserAgent::Associate(OrgKey(1));
    assert!(head.can_view_org(&OrgKey(1)));
    assert!(!head.can_view_org(&OrgKey(2)));
    assert!(head.can_add_associate(&OrgKey(1)));
    assert!(!teacher.can_add_associate(&OrgKey(1)));
    assert!(teacher.can_view_org(&OrgKey(1)));
    assert!(head.can_delete_user(&pupil(1)));
    assert!(!head.can_delete_user(&pupil(2)));
    assert!(!teacher.can_delete_user(&pupil(1)));
    assert!(teacher.can_view_user(&pupil(1)));
    assert!(!teacher.can_view_user(&pupil(2)));
}

#[test]
fn admin_cannot_touch_staff() {
    assert!(!UserAgent::Admin.can_delete_user(&UserAgent::Owner));
    assert!(!UserAgent::Admin.can_delete_user(&UserAgent::Admin));
    assert!(UserAgent::Admin.can_delete_user(&pupil(1)));
    assert!(UserAgent::Owner.can_delete_user(&UserAgent::Admin));
    assert!(!UserAgent::Admin.can_view_user(&UserAgent::Owner));
}

#[test]
fn pupils_see_nothing() {
    let p = pupil(1);
    assert!(!p.can_view_org(&OrgKey(1)));
    assert!(!p.can_view_user(&pupil(1)));
    assert!(!p.can_delete_user(&pupil(1)));
    assert!(!p.can_add_associate(&OrgKey(1)));
}

#[test]
fn deleting_implies_viewing_on_examples() {
    let agents = [
        UserAgent::Owner,
        UserAgent::Admin,
        UserAgent::Organisation(OrgKey(1)),
        UserAgent::Associate(OrgKey(1)),
        pupil(1),
        pupil(2),
    ];
    for a in agents.iter() {
        for b in agents.iter() {
            if a.can_delete_user(b) {
                assert!(a.can_view_user(b));
            }
        }
    }
}

#[test]
fn choosing_a_section() {
    let mut u = person(pupil(1));
    u.set_section(2, SectionKey(77));
    match &u.user_agent {
        UserAgent::Client { sections, .. } => {
            assert_eq!(sections[2], Some(SectionKey(77)));
            assert_eq!(sections[0], None);
        }
        _ => panic!("not a pupil"),
    }
    let mut admin = person(UserAgent::Admin);
    admin.set_section(0, SectionKey(1));
    assert_eq!(admin.user_agent, UserAgent::Admin);
}
