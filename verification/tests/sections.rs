use duke_portal::keys::UserKey;
use duke_portal::section::{
    Activity, ActivityComponent, AwardInfo, FormEntryType, InputItem, Section, SectionInfo, SectionState,
};

#[test]
fn state_names_and_styles() {
    let states = [
        SectionState::InProgress,
        SectionState::Rejected("no photos".to_owned()),
        SectionState::InReview(42),
        SectionState::Completed,
    ];
    let names: Vec<String> = states.iter().map(|s| s.to_string()).collect();
    assert_eq!(names, vec!["In Progress", "Not Approved", "In Review", "Completed"]);
    let classes: Vec<String> = states.iter().map(|s| s.css_class()).collect();
    assert_eq!(
        classes,
        vec!["state-in-progress", "state-rejected", "state-in-review", "state-completed"]
    );
    let colours: Vec<String> = states.iter().map(|s| s.css_color()).collect();
    assert_eq!(colours, vec!["rgb(175, 175, 175)", "red", "orange", "green"]);
}

#[test]
fn state_predicates() {
    assert!(SectionState::Completed.is_completed());
    assert!(!SectionState::InReview(1).is_completed());
    assert!(SectionState::Completed.is_restricted());
    assert!(SectionState::Rejected(String::new()).is_restricted());
    assert!(!SectionState::InProgress.is_restricted());
    assert_eq!(SectionState::InReview(99).time(), Some(99));
    assert_eq!(SectionState::Completed.time(), None);
    assert_eq!(SectionState::default(), SectionState::InProgress);
}

#[test]
fn radio_of_true_and_false() {
    assert_eq!(
        FormEntryType::true_false_radio(),
        FormEntryType::Radio(vec!["true".to_owned(), "false".to_owned()])
    );
}

#[test]
fn input_components_are_found_by_name() {
    let activity = Activity {
        name: "A".to_owned(),
        subtitle: "B".to_owned(),
        activity_url: "c".to_owned(),
        components: vec![
            ActivityComponent::HtmlText("intro".to_owned()),
            ActivityComponent::InputItem(InputItem {
                title: "Q".to_owned(),
                text: "?".to_owned(),
                name: "answer".to_owned(),
                ty: FormEntryType::true_false_radio(),
            }),
        ],
    };
    assert!(activity.contains_input_component("answer"));
    assert!(!activity.contains_input_component("intro"));
}

#[test]
fn new_section_starts_in_progress() {
    let s = Section::new(3, "gold".to_owned(), "brand".to_owned(), UserKey(8));
    assert_eq!(s.section_index, 3);
    assert_eq!(s.award, "gold");
    assert_eq!(s.activity, "brand");
    assert_eq!(s.plan, "");
    assert_eq!(s.reflection, "");
    assert!(s.input_data.is_empty());
    assert_eq!(s.state, SectionState::InProgress);
    assert!(!s.outstanding);
}

#[test]
fn awards_on_offer() {
    let awards = AwardInfo::awards();
    assert_eq!(awards.len(), 2);
    assert_eq!(awards[0].0, "silver");
    assert_eq!(awards[0].1.name, "Silver Senior Duke");
    assert_eq!(awards[1].0, "gold");
    assert_eq!(awards[1].1.short_name, "Gold");
    assert_eq!(awards[0].1.sections[0].name, "Creative Skills");
    let keys: Vec<&str> = awards[0].1.sections[0].activities.iter().map(|a| a.0.as_str()).collect();
    assert_eq!(keys, vec!["video", "skill", "flashcards"]);
}

#[test]
fn section_lists_have_six_sections_each() {
    let silver = SectionInfo::silver_sections_list();
    let gold = SectionInfo::gold_sections_list();
    assert_eq!(silver[1].name, "Money Skills");
    assert_eq!(gold[0].activities[1].0, "trailer");
    assert_eq!(gold[0].activities[1].1.name, "Trailer Making");
    assert!(silver.iter().all(|s| s.activities.iter().all(|a| a.1.components.is_empty())));
}

#[test]
fn activity_of_a_section() {
    let awards = AwardInfo::awards();
    let s = Section::new(0, "gold".to_owned(), "brand".to_owned(), UserKey(1));
    assert_eq!(s.get_activity(&awards).map(|a| a.name.clone()), Some("Create your Brand".to_owned()));
    let unknown = Section::new(0, "bronze".to_owned(), "brand".to_owned(), UserKey(1));
    assert!(unknown.get_activity(&awards).is_none());
    let out_of_range = Section::new(6, "gold".to_owned(), "brand".to_owned(), UserKey(1));
    assert!(out_of_range.get_activity(&awards).is_none());
}
