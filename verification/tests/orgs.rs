use duke_portal::keys::{SectionKey, UserKey};
use duke_portal::org::Org;

fn org_with_credits(credits: u32) -> Org {
    let mut org = Org::new("Hillside".to_owned());
    assert!(org.add_credits(credits));
    org
}

#[test]
fn new_org_is_empty() {
    let org = Org::new("Hillside".to_owned());
    assert_eq!(org.name, "Hillside");
    assert!(org.admin.is_none());
    assert!(org.associates.is_empty());
    assert!(org.clients.is_empty());
    assert!(org.unreviewed_sections.is_empty());
    assert_eq!(org.credits, 0);
    assert_eq!(org.notification_interval, 7 * 24 * 60 * 60 * 1_000_000_000);
}

#[test]
fn admitting_a_pupil_uses_a_credit() {
    let mut org = org_with_credits(2);
    assert!(org.admit_client(UserKey(1)));
    assert_eq!(org.clients, vec![UserKey(1)]);
    assert_eq!(org.credits, 1);
    assert!(!org.admit_client(UserKey(1)));
    assert_eq!(org.credits, 1);
}

#[test]
fn no_credit_no_pupil() {
    let mut org = org_with_credits(0);
    assert!(!org.admit_client(UserKey(1)));
    assert!(org.clients.is_empty());
}

#[test]
fn admit_then_release_restores_the_org() {
    let mut org = org_with_credits(3);
    org.admit_client(UserKey(5));
    let before = (org.clients.clone(), org.credits);
    assert!(org.admit_client(UserKey(6)));
    org.release_client(UserKey(6));
    assert_eq!((org.clients.clone(), org.credits), before);
}

#[test]
fn places_are_conserved() {
    let mut org = org_with_credits(4);
    let total = org.clients.len() as u32 + org.credits;
    org.admit_client(UserKey(1));
    org.admit_client(UserKey(2));
    assert_eq!(org.clients.len() as u32 + org.credits, total);
    org.release_client(UserKey(1));
    assert_eq!(org.clients.len() as u32 + org.credits, total);
    assert_eq!(org.clients, vec![UserKey(2)]);
}

#[test]
fn teachers_join_once_and_leave() {
    let mut org = Org::new("Hillside".to_owned());
    assert!(org.admit_associate(UserKey(9)));
    assert!(!org.admit_associate(UserKey(9)));
    assert_eq!(org.associates, vec![UserKey(9)]);
    org.release_associate(UserKey(9));
    assert!(org.associates.is_empty());
}

#[test]
fn credits_do_not_overflow() {
    let mut org = org_with_credits(u32::MAX - 1);
    assert!(!org.add_credits(2));
    assert_eq!(org.credits, u32::MAX - 1);
    assert!(org.add_credits(1));
    assert_eq!(org.credits, u32::MAX);
}

#[test]
fn reminders_fall_due_after_the_interval() {
    let mut org = Org::new("Hillside".to_owned());
    org.last_notification = 1_000;
    org.notification_interval = 500;
    assert!(!org.notification_due(1_500));
    assert!(org.notification_due(1_501));
    org.mark_notified(2_000);
    assert_eq!(org.last_notification, 2_000);
    org.notification_interval = u128::MAX;
    assert!(!org.notification_due(u128::MAX));
    org.unreviewed_sections.push(SectionKey(1));
    assert_eq!(org.unreviewed_sections.len(), 1);
}

#[test]
fn a_new_organisation_is_notified_at_its_instant() {
    let org = Org::new_at("Hillside".to_owned(), 1234);
    assert_eq!(org.last_notification, 1234);
    assert_eq!(org.credits, 0);
    assert!(org.clients.is_empty());
    assert!(org.associates.is_empty());
    assert_eq!(org.notification_interval, Org::new("X".to_owned()).notification_interval);
}
