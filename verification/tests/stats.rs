use duke_portal::data::SharedData;
use duke_portal::keys::{SectionKey, UserKey};
use duke_portal::section::{Section, SectionState};
use duke_portal::stats::{activity_tallies, count_sections, section_stats};

fn section(award: &str, index: usize, activity: &str, completed: bool) -> Section {
    let mut s = Section::new(index, award.to_owned(), activity.to_owned(), UserKey(1));
    if completed {
        s.state = SectionState::Completed;
    }
    s
}

fn sample() -> Vec<Section> {
    vec![
        section("silver", 1, "mend", true),
        section("silver", 1, "mend", false),
        section("silver", 1, "meals", true),
        section("silver", 2, "mend", true),
        section("gold", 1, "mend", true),
    ]
}

#[test]
fn counting_sections_by_award_section_and_activity() {
    let sections = sample();
    assert_eq!(count_sections(&sections, "silver", 1, None, false), 3);
    assert_eq!(count_sections(&sections, "silver", 1, None, true), 2);
    assert_eq!(count_sections(&sections, "silver", 1, Some("mend"), false), 2);
    assert_eq!(count_sections(&sections, "silver", 1, Some("mend"), true), 1);
    assert_eq!(count_sections(&sections, "bronze", 1, None, false), 0);
    let tallies = activity_tallies(&sections, "silver", 1, &vec!["mend".to_owned(), "prices".to_owned()]);
    assert_eq!(tallies.len(), 2);
    assert_eq!((tallies[0].selected, tallies[0].completed), (2, 1));
    assert_eq!((tallies[1].selected, tallies[1].completed), (0, 0));
}

#[test]
fn section_figures_add_up_the_completions() {
    let sections = sample();
    let keys = vec!["mend".to_owned(), "meals".to_owned(), "prices".to_owned()];
    let figures = section_stats(&sections, "silver", 1, &keys);
    assert_eq!(figures.total, 3);
    assert_eq!(figures.tallies.len(), 3);
    assert_eq!(figures.tallies[1].selected, 1);
    assert_eq!(figures.completions, 2);
    let empty = section_stats(&Vec::new(), "silver", 1, &keys);
    assert_eq!((empty.total, empty.completions), (0, 0));
}

#[test]
fn stored_sections_are_each_read_once() {
    let root = format!("/tmp/duke-portal-tests/stats/{}", UserKey::generate().to_string());
    let mut data = SharedData::load_from_disk(root).unwrap();
    let (none, complete) = data.stored_sections();
    assert!(complete);
    assert!(none.is_empty());
    data.section_db.insert(&SectionKey(1), &section("silver", 1, "mend", true)).unwrap();
    data.section_db.insert(&SectionKey(2), &section("gold", 0, "x", false)).unwrap();
    let (sections, complete) = data.stored_sections();
    assert!(complete);
    assert_eq!(sections.len(), 2);
    assert_eq!(count_sections(&sections, "silver", 1, Some("mend"), true), 1);
}
