use vstd::prelude::*;
use crate::keys::UserKey;

verus! {

/// The text views of a list of strings.
pub open spec fn texts(v: Seq<String>) -> Seq<Seq<char>> {
    v.map_values(|s: String| s@)
}

/// The kind of answer an input item asks for.
#[derive(Debug, Clone, PartialEq)]
pub enum FormEntryType {
    Text { placeholder: String, rows: u32 },
    Checkbox(Vec<String>),
    Radio(Vec<String>),
}

/// The model of a [`FormEntryType`].
pub enum FormEntryTypeView {
    Text { placeholder: Seq<char>, rows: u32 },
    Checkbox(Seq<Seq<char>>),
    Radio(Seq<Seq<char>>),
}

impl View for FormEntryType {
    type V = FormEntryTypeView;

    open spec fn view(&self) -> FormEntryTypeView {
        match self {
            FormEntryType::Text { placeholder, rows } => FormEntryTypeView::Text {
                placeholder: placeholder@,
                rows: *rows,
            },
            FormEntryType::Checkbox(options) => FormEntryTypeView::Checkbox(texts(options@)),
            FormEntryType::Radio(options) => FormEntryTypeView::Radio(texts(options@)),
        }
    }
}

impl FormEntryType {
    /// A radio choice between `true` and `false`.
    pub fn true_false_radio() -> (res: Self)
        ensures
            res@ == FormEntryTypeView::Radio(seq!["true"@, "false"@]),
    {
        let mut options: Vec<String> = Vec::new();
        options.push("true".to_owned());
        options.push("false".to_owned());
        assert(texts(options@) =~= seq!["true"@, "false"@]);
        FormEntryType::Radio(options)
    }
}

/// An item of a form within an activity.
#[derive(Debug, Clone, PartialEq)]
pub struct InputItem {
    pub title: String,
    pub text: String,
    pub name: String,
    pub ty: FormEntryType,
}

/// A part of an activity's page.
#[derive(Debug, Clone, PartialEq)]
pub enum ActivityComponent {
    HtmlText(String),
    HtmlFile(String),
    InputItem(InputItem),
}

/// The answer given to an input item.
#[derive(Debug, Clone, PartialEq)]
pub enum FormEntryData {
    Text(String),
    Index(usize),
    Indices(Vec<usize>),
}

/// One activity a pupil may choose within a section.
#[derive(Debug, Clone, PartialEq)]
pub struct Activity {
    pub name: String,
    pub subtitle: String,
    pub activity_url: String,
    pub components: Vec<ActivityComponent>,
}

/// Whether a component is an input item of the given name.
pub open spec fn is_input_named(c: ActivityComponent, name: Seq<char>) -> bool {
    match c {
        ActivityComponent::InputItem(item) => item.name@ == name,
        _ => false,
    }
}

impl Activity {
    /// Whether the activity has an input item of the given name.
    pub fn contains_input_component(&self, name: &str) -> (res: bool)
        ensures
            res == exists|i: int|
                0 <= i < self.components.len() && #[trigger] is_input_named(
                    self.components@[i],
                    name@,
                ),
    {
        let mut i: usize = 0;
        while i < self.components.len()
            invariant
                i <= self.components.len(),
                forall|j: int| 0 <= j < i ==> !#[trigger] is_input_named(self.components@[j], name@),
            decreases self.components.len() - i,
        {
            if let ActivityComponent::InputItem(item) = &self.components[i] {
                if crate::util::same_text(item.name.as_str(), name) {
                    assert(is_input_named(self.components@[i as int], name@));
                    return true;
                }
            }
            i = i + 1;
        }
        false
    }
}

/// The state of a pupil's section.
#[derive(Debug, Clone, PartialEq)]
pub enum SectionState {
    InProgress,
    Rejected(String),
    /// Submitted for review at the given instant, in nanoseconds since the
    /// UNIX epoch.
    InReview(u128),
    Completed,
}

impl SectionState {
    /// The state's name as shown to users.
    pub fn to_string(&self) -> (res: String)
        ensures
            res@ == match self {
                SectionState::InProgress => "In Progress"@,
                SectionState::Rejected(_) => "Not Approved"@,
                SectionState::InReview(_) => "In Review"@,
                SectionState::Completed => "Completed"@,
            },
    {
        match self {
            SectionState::InProgress => "In Progress".to_owned(),
            SectionState::Rejected(_) => "Not Approved".to_owned(),
            SectionState::InReview(_) => "In Review".to_owned(),
            SectionState::Completed => "Completed".to_owned(),
        }
    }

    /// Whether the section is completed.
    pub fn is_completed(&self) -> (res: bool)
        ensures
            res == (*self is Completed),
    {
        if let SectionState::Completed = self {
            true
        } else {
            false
        }
    }

    /// The style class of the state.
    pub fn css_class(&self) -> (res: String)
        ensures
            res@ == match self {
                SectionState::InProgress => "state-in-progress"@,
                SectionState::Rejected(_) => "state-rejected"@,
                SectionState::InReview(_) => "state-in-review"@,
                SectionState::Completed => "state-completed"@,
            },
    {
        match self {
            SectionState::InProgress => "state-in-progress".to_owned(),
            SectionState::Rejected(_) => "state-rejected".to_owned(),
            SectionState::InReview(_) => "state-in-review".to_owned(),
            SectionState::Completed => "state-completed".to_owned(),
        }
    }

    /// The colour of the state.
    pub fn css_color(&self) -> (res: String)
        ensures
            res@ == match self {
                SectionState::InProgress => "rgb(175, 175, 175)"@,
                SectionState::Rejected(_) => "red"@,
                SectionState::InReview(_) => "orange"@,
                SectionState::Completed => "green"@,
            },
    {
        match self {
            SectionState::InProgress => "rgb(175, 175, 175)".to_owned(),
            SectionState::Rejected(_) => "red".to_owned(),
            SectionState::InReview(_) => "orange".to_owned(),
            SectionState::Completed => "green".to_owned(),
        }
    }

    /// Whether the pupil may no longer change the section: once it is
    /// rejected or completed.
    pub fn is_restricted(&self) -> (res: bool)
        ensures
            res == (*self is Rejected || *self is Completed),
    {
        match self {
            SectionState::InProgress => false,
            SectionState::Rejected(_) => true,
            SectionState::InReview(_) => false,
            SectionState::Completed => true,
        }
    }

    /// The instant the section was submitted for review, while it is in
    /// review.
    pub fn time(&self) -> (res: Option<u128>)
        ensures
            res == match self {
                SectionState::InReview(t) => Some(*t),
                _ => None,
            },
    {
        if let SectionState::InReview(time) = self {
            Some(*time)
        } else {
            None
        }
    }

    /// A section starts in progress.
    pub fn default() -> (res: Self)
        ensures
            res is InProgress,
    {
        SectionState::InProgress
    }
}

/// A completed section is one the pupil may no longer change, and a
/// section has a review time exactly while it is in review.
pub proof fn law_section_state(s: SectionState)
    ensures
        s is Completed ==> (s is Rejected || s is Completed),
        (s is InReview) <==> (match s {
            SectionState::InReview(_) => true,
            _ => false,
        }),
{
}

/// The work of a pupil on one section of an award.
#[derive(Debug)]
pub struct Section {
    pub section_index: usize,
    pub award: String,
    pub activity: String,
    pub user_id: UserKey,
    pub plan: String,
    pub reflection: String,
    /// The answers given to the activity's input items, by item name.
    pub input_data: Vec<(String, FormEntryData)>,
    pub state: SectionState,
    pub outstanding: bool,
}

impl Section {
    /// A fresh section for the given award, section and activity: no plan,
    /// reflection or answers yet, in progress and not outstanding.
    pub fn new(section_index: usize, award: String, activity: String, user_id: UserKey) -> (res: Self)
        ensures
            res.section_index == section_index,
            res.award@ == award@,
            res.activity@ == activity@,
            res.user_id == user_id,
            res.plan@.len() == 0,
            res.reflection@.len() == 0,
            res.input_data@.len() == 0,
            res.state is InProgress,
            !res.outstanding,
    {
        Section {
            section_index,
            activity,
            award,
            user_id,
            plan: String::new(),
            reflection: String::new(),
            input_data: Vec::new(),
            state: SectionState::InProgress,
            outstanding: false,
        }
    }
}

/// The identifying text of an activity: its key, name, subtitle and the
/// template that describes it.
pub type ActivityOutline = (Seq<char>, Seq<char>, Seq<char>, Seq<char>);

/// The identifying text of a section: its name, subtitle, image and the
/// outlines of its activities, in order.
pub type SectionOutline = (Seq<char>, Seq<char>, Seq<char>, Seq<ActivityOutline>);

/// One of the six sections of an award, with the activities a pupil can
/// choose from, each under its key.
#[derive(Debug, Clone, PartialEq)]
pub struct SectionInfo {
    pub name: String,
    pub subtitle: String,
    pub activities: Vec<(String, Activity)>,
    pub image_url: String,
}

/// The outline of a keyed activity.
pub open spec fn activity_outline(entry: (String, Activity)) -> ActivityOutline {
    (entry.0@, entry.1.name@, entry.1.subtitle@, entry.1.activity_url@)
}

/// The position of the first entry under the given key.
pub open spec fn first_key<T>(entries: Seq<(String, T)>, key: Seq<char>) -> Option<int> {
    if exists|i: int| 0 <= i < entries.len() && #[trigger] entries[i].0@ == key {
        Some(
            choose|i: int|
                0 <= i < entries.len() && #[trigger] entries[i].0@ == key && (forall|j: int|
                    0 <= j < i ==> entries[j].0@ != key),
        )
    } else {
        None
    }
}

/// Finds the first entry under `key`, if any.
pub(crate) fn find_key<T>(entries: &Vec<(String, T)>, key: &str) -> (res: Option<usize>)
    ensures
        match res {
            Some(i) => i < entries@.len() && first_key(entries@, key@) == Some(i as int),
            None => first_key(entries@, key@) is None,
        },
{
    let mut i: usize = 0;
    while i < entries.len()
        invariant
            i <= entries.len(),
            forall|j: int| 0 <= j < i ==> entries@[j].0@ != key@,
        decreases entries.len() - i,
    {
        if crate::util::same_text(entries[i].0.as_str(), key) {
            assert(entries@[i as int].0@ == key@);
            let ghost c = choose|c: int|
                0 <= c < entries@.len() && #[trigger] entries@[c].0@ == key@ && (forall|j: int|
                    0 <= j < c ==> entries@[j].0@ != key@);
            assert(c == i) by {
                if c < i {
                } else if c > i {
                }
            }
            return Some(i);
        }
        i = i + 1;
    }
    None
}

impl SectionInfo {
    /// The outline of the section.
    pub open spec fn outline(&self) -> SectionOutline {
        (self.name@, self.subtitle@, self.image_url@, self.activities@.map_values(|e: (String, Activity)| activity_outline(e)))
    }

    /// No activity of the section has components.
    pub open spec fn has_no_components(&self) -> bool {
        forall|i: int| 0 <= i < self.activities@.len() ==> #[trigger] self.activities@[i].1.components@.len() == 0
    }

    /// The activity under the given key.
    pub fn activity(&self, key: &str) -> (res: Option<&Activity>)
        ensures
            match first_key(self.activities@, key@) {
                Some(i) => res == Some(&self.activities@[i].1),
                None => res is None,
            },
    {
        match find_key(&self.activities, key) {
            Some(i) => Some(&self.activities[i].1),
            None => None,
        }
    }
}

impl Activity {
    /// An activity described only by its template, with no components.
    fn plain(name: &str, subtitle: &str, activity_url: &str) -> (res: Activity)
        ensures
            res.name@ == name@,
            res.subtitle@ == subtitle@,
            res.activity_url@ == activity_url@,
            res.components@.len() == 0,
    {
        Activity {
            name: name.to_owned(),
            subtitle: subtitle.to_owned(),
            activity_url: activity_url.to_owned(),
            components: Vec::new(),
        }
    }
}

/// The outline of the silver award's section 0, "Creative Skills".
pub open spec fn silver_section_0_outline() -> SectionOutline {
    ("Creative Skills"@, "Creative skills to help promote your own well-being"@, "/section_icons/creative_skills.png"@, seq![
            ("video"@, "Video Editing"@, "Emotional Intelligence & Self Expression"@, "sections/silver/creative/video_editing"@),
            ("skill"@, "Up Your Skill Level"@, "Persistence and Resilience"@, "sections/silver/creative/up_your_skill"@),
            ("flashcards"@, "Flashcards and Mindmaps"@, "Critical Thinking"@, "sections/silver/creative/flashcards"@)
        ])
}

fn silver_section_0() -> (res: SectionInfo)
    ensures
        res.outline() == silver_section_0_outline(),
        res.has_no_components(),
{
    let mut activities: Vec<(String, Activity)> = Vec::new();
    activities.push(("video".to_owned(), Activity::plain("Video Editing", "Emotional Intelligence & Self Expression", "sections/silver/creative/video_editing")));
    activities.push(("skill".to_owned(), Activity::plain("Up Your Skill Level", "Persistence and Resilience", "sections/silver/creative/up_your_skill")));
    activities.push(("flashcards".to_owned(), Activity::plain("Flashcards and Mindmaps", "Critical Thinking", "sections/silver/creative/flashcards")));
    let res = SectionInfo {
        name: "Creative Skills".to_owned(),
        subtitle: "Creative skills to help promote your own well-being".to_owned(),
        activities,
        image_url: "/section_icons/creative_skills.png".to_owned(),
    };
    assert(res.outline().3 =~= silver_section_0_outline().3);
    res
}

/// The outline of the silver award's section 1, "Money Skills".
pub open spec fn silver_section_1_outline() -> SectionOutline {
    ("Money Skills"@, "Financial and negotiation skills for the future"@, "/section_icons/money_skills.png"@, seq![
            ("mend"@, "Make do and Mend"@, "Persistence and Resilience"@, "sections/silver/money/mend"@),
            ("meals"@, "Five Budget Meals"@, "Budgeting & Cookery"@, "sections/silver/money/meals"@),
            ("prices"@, "Compare Prices"@, "Research & Negotiation Skills"@, "sections/silver/money/compare"@)
        ])
}

fn silver_section_1() -> (res: SectionInfo)
    ensures
        res.outline() == silver_section_1_outline(),
        res.has_no_components(),
{
    let mut activities: Vec<(String, Activity)> = Vec::new();
    activities.push(("mend".to_owned(), Activity::plain("Make do and Mend", "Persistence and Resilience", "sections/silver/money/mend")));
    activities.push(("meals".to_owned(), Activity::plain("Five Budget Meals", "Budgeting & Cookery", "sections/silver/money/meals")));
    activities.push(("prices".to_owned(), Activity::plain("Compare Prices", "Research & Negotiation Skills", "sections/silver/money/compare")));
    let res = SectionInfo {
        name: "Money Skills".to_owned(),
        subtitle: "Financial and negotiation skills for the future".to_owned(),
        activities,
        image_url: "/section_icons/money_skills.png".to_owned(),
    };
    assert(res.outline().3 =~= silver_section_1_outline().3);
    res
}

/// The outline of the silver award's section 2, "Home Skills".
pub open spec fn silver_section_2_outline() -> SectionOutline {
    ("Home Skills"@, "Life skills to help you around the house and beyond"@, "/section_icons/home_skills.png"@, seq![
            ("maintenance"@, "Maintenance"@, "Problem Solving"@, "sections/silver/home/maintenance"@),
            ("tech"@, "Share your tech Knowledge"@, "Empathy, Adaptability & Mentoring"@, "sections/silver/home/tech"@),
            ("bathroom"@, "Clean the Bathroom"@, "Perseverance"@, "sections/silver/home/bathroom"@)
        ])
}

fn silver_section_2() -> (res: SectionInfo)
    ensures
        res.outline() == silver_section_2_outline(),
        res.has_no_components(),
{
    let mut activities: Vec<(String, Activity)> = Vec::new();
    activities.push(("maintenance".to_owned(), Activity::plain("Maintenance", "Problem Solving", "sections/silver/home/maintenance")));
    activities.push(("tech".to_owned(), Activity::plain("Share your tech Knowledge", "Empathy, Adaptability & Mentoring", "sections/silver/home/tech")));
    activities.push(("bathroom".to_owned(), Activity::plain("Clean the Bathroom", "Perseverance", "sections/silver/home/bathroom")));
    let res = SectionInfo {
        name: "Home Skills".to_owned(),
        subtitle: "Life skills to help you around the house and beyond".to_owned(),
        activities,
        image_url: "/section_icons/home_skills.png".to_owned(),
    };
    assert(res.outline().3 =~= silver_section_2_outline().3);
    res
}

/// The outline of the silver award's section 3, "First Aid".
pub open spec fn silver_section_3_outline() -> SectionOutline {
    ("First Aid"@, "This is a compulsory challenge with no choices"@, "/section_icons/first_aid.png"@, seq![
            ("first_aid"@, "First Aid"@, "Critical thinking"@, "sections/silver/first_aid/first_aid"@)
        ])
}

fn silver_section_3() -> (res: SectionInfo)
    ensures
        res.outline() == silver_section_3_outline(),
        res.has_no_components(),
{
    let mut activities: Vec<(String, Activity)> = Vec::new();
    activities.push(("first_aid".to_owned(), Activity::plain("First Aid", "Critical thinking", "sections/silver/first_aid/first_aid")));
    let res = SectionInfo {
        name: "First Aid".to_owned(),
        subtitle: "This is a compulsory challenge with no choices".to_owned(),
        activities,
        image_url: "/section_icons/first_aid.png".to_owned(),
    };
    assert(res.outline().3 =~= silver_section_3_outline().3);
    res
}

/// The outline of the silver award's section 4, "Physical Challenge".
pub open spec fn silver_section_4_outline() -> SectionOutline {
    ("Physical Challenge"@, "A challenge to improve fitness and health"@, "/section_icons/physical_challenge.png"@, seq![
            ("run"@, "Mile Run"@, "Perseverance, Time Management & Health Behaviour"@, "sections/silver/physical/mile_run"@),
            ("walk"@, "Walk"@, "Perseverance, Time Management & Health Behaviour"@, "sections/silver/physical/walk"@),
            ("bike"@, "Bike"@, "Perseverance, Time Management & Health Behaviour"@, "sections/silver/physical/bike"@),
            ("swim"@, "Swim"@, "Perseverance, Time Management & Health Behaviour"@, "sections/silver/physical/swim"@),
            ("machine"@, "Rowing or other Fitness Machine"@, "Perseverance, Time Management & Health Behaviour"@, "sections/silver/physical/machine"@),
            ("stretch"@, "Stretch and Relax"@, "Perseverance, Time Management & Health Behaviour"@, "sections/silver/physical/relax"@)
        ])
}

fn silver_section_4() -> (res: SectionInfo)
    ensures
        res.outline() == silver_section_4_outline(),
        res.has_no_components(),
{
    let mut activities: Vec<(String, Activity)> = Vec::new();
    activities.push(("run".to_owned(), Activity::plain("Mile Run", "Perseverance, Time Management & Health Behaviour", "sections/silver/physical/mile_run")));
    activities.push(("walk".to_owned(), Activity::plain("Walk", "Perseverance, Time Management & Health Behaviour", "sections/silver/physical/walk")));
    activities.push(("bike".to_owned(), Activity::plain("Bike", "Perseverance, Time Management & Health Behaviour", "sections/silver/physical/bike")));
    activities.push(("swim".to_owned(), Activity::plain("Swim", "Perseverance, Time Management & Health Behaviour", "sections/silver/physical/swim")));
    activities.push(("machine".to_owned(), Activity::plain("Rowing or other Fitness Machine", "Perseverance, Time Management & Health Behaviour", "sections/silver/physical/machine")));
    activities.push(("stretch".to_owned(), Activity::plain("Stretch and Relax", "Perseverance, Time Management & Health Behaviour", "sections/silver/physical/relax")));
    let res = SectionInfo {
        name: "Physical Challenge".to_owned(),
        subtitle: "A challenge to improve fitness and health".to_owned(),
        activities,
        image_url: "/section_icons/physical_challenge.png".to_owned(),
    };
    assert(res.outline().3 =~= silver_section_4_outline().3);
    res
}

/// The outline of the silver award's section 5, "Adventure Challenge".
pub open spec fn silver_section_5_outline() -> SectionOutline {
    ("Adventure Challenge"@, "An adventure to enjoy and challenge you"@, "/section_icons/adventure_challenge.png"@, seq![
            ("trip"@, "Outdoor Day Trips"@, "Decision Making & Navigation"@, "sections/silver/adventure/day_trip"@),
            ("camping"@, "Go Camping"@, "Unplugging, Survival & Groundedness"@, "sections/silver/adventure/camping"@),
            ("climb"@, "Climb Ben Nevis Challenge"@, "Problem Solving & Perseverance"@, "sections/silver/adventure/ben_nevis"@)
        ])
}

fn silver_section_5() -> (res: SectionInfo)
    ensures
        res.outline() == silver_section_5_outline(),
        res.has_no_components(),
{
    let mut activities: Vec<(String, Activity)> = Vec::new();
    activities.push(("trip".to_owned(), Activity::plain("Outdoor Day Trips", "Decision Making & Navigation", "sections/silver/adventure/day_trip")));
    activities.push(("camping".to_owned(), Activity::plain("Go Camping", "Unplugging, Survival & Groundedness", "sections/silver/adventure/camping")));
    activities.push(("climb".to_owned(), Activity::plain("Climb Ben Nevis Challenge", "Problem Solving & Perseverance", "sections/silver/adventure/ben_nevis")));
    let res = SectionInfo {
        name: "Adventure Challenge".to_owned(),
        subtitle: "An adventure to enjoy and challenge you".to_owned(),
        activities,
        image_url: "/section_icons/adventure_challenge.png".to_owned(),
    };
    assert(res.outline().3 =~= silver_section_5_outline().3);
    res
}

/// The outline of the gold award's section 0, "Creative Skills".
pub open spec fn gold_section_0_outline() -> SectionOutline {
    ("Creative Skills"@, "Creative skills to help promote your own well-being"@, "/section_icons/creative_skills.png"@, seq![
            ("skill"@, "Up Your Skill Level"@, "Persistence and Resilience"@, "sections/gold/creative/up_your_skill"@),
            ("trailer"@, "Trailer Making"@, "Organisation & Prioritisation"@, "sections/gold/creative/trailer_making"@),
            ("brand"@, "Create your Brand"@, "Self awareness & Effective Communication"@, "sections/gold/creative/brand"@)
        ])
}

fn gold_section_0() -> (res: SectionInfo)
    ensures
        res.outline() == gold_section_0_outline(),
        res.has_no_components(),
{
    let mut activities: Vec<(String, Activity)> = Vec::new();
    activities.push(("skill".to_owned(), Activity::plain("Up Your Skill Level", "Persistence and Resilience", "sections/gold/creative/up_your_skill")));
    activities.push(("trailer".to_owned(), Activity::plain("Trailer Making", "Organisation & Prioritisation", "sections/gold/creative/trailer_making")));
    activities.push(("brand".to_owned(), Activity::plain("Create your Brand", "Self awareness & Effective Communication", "sections/gold/creative/brand")));
    let res = SectionInfo {
        name: "Creative Skills".to_owned(),
        subtitle: "Creative skills to help promote your own well-being".to_owned(),
        activities,
        image_url: "/section_icons/creative_skills.png".to_owned(),
    };
    assert(res.outline().3 =~= gold_section_0_outline().3);
    res
}

/// The outline of the gold award's section 1, "Money Skills".
pub open spec fn gold_section_1_outline() -> SectionOutline {
    ("Money Skills"@, "Financial and negotiation skills for the future"@, "/section_icons/money_skills.png"@, seq![
            ("coupons"@, "Coupons"@, "Thriftiness"@, "sections/gold/money/coupons"@),
            ("live_for_less"@, "Live for Less"@, "Budgeting and Cooperating"@, "sections/gold/money/live_for_less"@),
            ("saving"@, "Saving"@, "Communication, Cooperation, Time Management"@, "sections/gold/money/saving"@)
        ])
}

fn gold_section_1() -> (res: SectionInfo)
    ensures
        res.outline() == gold_section_1_outline(),
        res.has_no_components(),
{
    let mut activities: Vec<(String, Activity)> = Vec::new();
    activities.push(("coupons".to_owned(), Activity::plain("Coupons", "Thriftiness", "sections/gold/money/coupons")));
    activities.push(("live_for_less".to_owned(), Activity::plain("Live for Less", "Budgeting and Cooperating", "sections/gold/money/live_for_less")));
    activities.push(("saving".to_owned(), Activity::plain("Saving", "Communication, Cooperation, Time Management", "sections/gold/money/saving")));
    let res = SectionInfo {
        name: "Money Skills".to_owned(),
        subtitle: "Financial and negotiation skills for the future".to_owned(),
        activities,
        image_url: "/section_icons/money_skills.png".to_owned(),
    };
    assert(res.outline().3 =~= gold_section_1_outline().3);
    res
}

/// The outline of the gold award's section 2, "Home Skills".
pub open spec fn gold_section_2_outline() -> SectionOutline {
    ("Home Skills"@, "Life skills to help you around the house and beyond"@, "/section_icons/home_skills.png"@, seq![
            ("letter"@, "Letter Writing"@, "Assertiveness"@, "sections/gold/home/letter"@),
            ("food"@, "Food Choices and Safety"@, "Health and Self Awareness"@, "sections/gold/home/food_safety"@),
            ("clean"@, "Spring Clean"@, "Persistence"@, "sections/gold/home/spring_clean"@),
            ("drink"@, "Drink Choices"@, "Health and Safety, Awareness of Peer Pressure"@, "sections/gold/home/drink"@)
        ])
}

fn gold_section_2() -> (res: SectionInfo)
    ensures
        res.outline() == gold_section_2_outline(),
        res.has_no_components(),
{
    let mut activities: Vec<(String, Activity)> = Vec::new();
    activities.push(("letter".to_owned(), Activity::plain("Letter Writing", "Assertiveness", "sections/gold/home/letter")));
    activities.push(("food".to_owned(), Activity::plain("Food Choices and Safety", "Health and Self Awareness", "sections/gold/home/food_safety")));
    activities.push(("clean".to_owned(), Activity::plain("Spring Clean", "Persistence", "sections/gold/home/spring_clean")));
    activities.push(("drink".to_owned(), Activity::plain("Drink Choices", "Health and Safety, Awareness of Peer Pressure", "sections/gold/home/drink")));
    let res = SectionInfo {
        name: "Home Skills".to_owned(),
        subtitle: "Life skills to help you around the house and beyond".to_owned(),
        activities,
        image_url: "/section_icons/home_skills.png".to_owned(),
    };
    assert(res.outline().3 =~= gold_section_2_outline().3);
    res
}

/// The outline of the gold award's section 3, "First Aid".
pub open spec fn gold_section_3_outline() -> SectionOutline {
    ("First Aid"@, "This is a compulsory challenge with no choices"@, "/section_icons/first_aid.png"@, seq![
            ("first_aid"@, "First Aid"@, "Critical thinking"@, "sections/silver/first_aid/first_aid"@)
        ])
}

fn gold_section_3() -> (res: SectionInfo)
    ensures
        res.outline() == gold_section_3_outline(),
        res.has_no_components(),
{
    let mut activities: Vec<(String, Activity)> = Vec::new();
    activities.push(("first_aid".to_owned(), Activity::plain("First Aid", "Critical thinking", "sections/silver/first_aid/first_aid")));
    let res = SectionInfo {
        name: "First Aid".to_owned(),
        subtitle: "This is a compulsory challenge with no choices".to_owned(),
        activities,
        image_url: "/section_icons/first_aid.png".to_owned(),
    };
    assert(res.outline().3 =~= gold_section_3_outline().3);
    res
}

/// The outline of the gold award's section 4, "Physical Challenge".
pub open spec fn gold_section_4_outline() -> SectionOutline {
    ("Physical Challenge"@, "A challenge to improve fitness and health"@, "/section_icons/physical_challenge.png"@, seq![
            ("run"@, "5km Run"@, "Perseverance, Time Management & Health Behaviour"@, "sections/gold/physical/run"@),
            ("walk"@, "5km Walk"@, "Perseverance, Time Management & Health Behaviour"@, "sections/gold/physical/walk"@),
            ("bike"@, "10km Bike"@, "Perseverance, Time Management & Health Behaviour"@, "sections/gold/physical/bike"@),
            ("swim"@, "Swim"@, "Perseverance, Time Management & Health Behaviour"@, "sections/gold/physical/swim"@),
            ("machine"@, "Rowing or other Fitness Machine"@, "Perseverance, Time Management & Health Behaviour"@, "sections/gold/physical/machine"@),
            ("stretch"@, "Stretch and Relax"@, "Perseverance, Time Management & Health Behaviour"@, "sections/gold/physical/relax"@)
        ])
}

fn gold_section_4() -> (res: SectionInfo)
    ensures
        res.outline() == gold_section_4_outline(),
        res.has_no_components(),
{
    let mut activities: Vec<(String, Activity)> = Vec::new();
    activities.push(("run".to_owned(), Activity::plain("5km Run", "Perseverance, Time Management & Health Behaviour", "sections/gold/physical/run")));
    activities.push(("walk".to_owned(), Activity::plain("5km Walk", "Perseverance, Time Management & Health Behaviour", "sections/gold/physical/walk")));
    activities.push(("bike".to_owned(), Activity::plain("10km Bike", "Perseverance, Time Management & Health Behaviour", "sections/gold/physical/bike")));
    activities.push(("swim".to_owned(), Activity::plain("Swim", "Perseverance, Time Management & Health Behaviour", "sections/gold/physical/swim")));
    activities.push(("machine".to_owned(), Activity::plain("Rowing or other Fitness Machine", "Perseverance, Time Management & Health Behaviour", "sections/gold/physical/machine")));
    activities.push(("stretch".to_owned(), Activity::plain("Stretch and Relax", "Perseverance, Time Management & Health Behaviour", "sections/gold/physical/relax")));
    let res = SectionInfo {
        name: "Physical Challenge".to_owned(),
        subtitle: "A challenge to improve fitness and health".to_owned(),
        activities,
        image_url: "/section_icons/physical_challenge.png".to_owned(),
    };
    assert(res.outline().3 =~= gold_section_4_outline().3);
    res
}

/// The outline of the gold award's section 5, "Adventure Challenge".
pub open spec fn gold_section_5_outline() -> SectionOutline {
    ("Adventure Challenge"@, "An adventure to enjoy and challenge you"@, "/section_icons/adventure_challenge.png"@, seq![
            ("camping"@, "Go Camping"@, "Unplugging, Survival & Groundedness"@, "sections/gold/adventure/camping"@),
            ("tour"@, "Walking Tour / Quiz"@, "Problem Solving & Creativity"@, "sections/gold/adventure/walking_tour"@),
            ("adventure"@, "Map Reading, Adventure Day"@, "Planning, Adventurous spirit, Navigation"@, "sections/gold/adventure/adventure_day"@)
        ])
}

fn gold_section_5() -> (res: SectionInfo)
    ensures
        res.outline() == gold_section_5_outline(),
        res.has_no_components(),
{
    let mut activities: Vec<(String, Activity)> = Vec::new();
    activities.push(("camping".to_owned(), Activity::plain("Go Camping", "Unplugging, Survival & Groundedness", "sections/gold/adventure/camping")));
    activities.push(("tour".to_owned(), Activity::plain("Walking Tour / Quiz", "Problem Solving & Creativity", "sections/gold/adventure/walking_tour")));
    activities.push(("adventure".to_owned(), Activity::plain("Map Reading, Adventure Day", "Planning, Adventurous spirit, Navigation", "sections/gold/adventure/adventure_day")));
    let res = SectionInfo {
        name: "Adventure Challenge".to_owned(),
        subtitle: "An adventure to enjoy and challenge you".to_owned(),
        activities,
        image_url: "/section_icons/adventure_challenge.png".to_owned(),
    };
    assert(res.outline().3 =~= gold_section_5_outline().3);
    res
}


/// The outlines of the silver award's sections.
pub open spec fn silver_outline() -> Seq<SectionOutline> {
    seq![
        silver_section_0_outline(),
        silver_section_1_outline(),
        silver_section_2_outline(),
        silver_section_3_outline(),
        silver_section_4_outline(),
        silver_section_5_outline(),
    ]
}

/// The outlines of the gold award's sections.
pub open spec fn gold_outline() -> Seq<SectionOutline> {
    seq![
        gold_section_0_outline(),
        gold_section_1_outline(),
        gold_section_2_outline(),
        gold_section_3_outline(),
        gold_section_4_outline(),
        gold_section_5_outline(),
    ]
}

/// Whether the activities of a section outline have distinct keys.
pub open spec fn activity_keys_distinct(o: SectionOutline) -> bool {
    forall|i: int, j: int| 0 <= i < j < o.3.len() ==> #[trigger] o.3[i].0 != #[trigger] o.3[j].0
}

proof fn lemma_silver_0_keys_distinct()
    ensures
        activity_keys_distinct(silver_section_0_outline()),
{
    reveal_strlit("video");
    assert("video"@.len() == 5);
    assert("video"@[0] == 'v');
    assert("video"@[1] == 'i');
    assert("video"@[2] == 'd');
    assert("video"@[3] == 'e');
    assert("video"@[4] == 'o');
    reveal_strlit("skill");
    assert("skill"@.len() == 5);
    assert("skill"@[0] == 's');
    assert("skill"@[1] == 'k');
    assert("skill"@[2] == 'i');
    assert("skill"@[3] == 'l');
    assert("skill"@[4] == 'l');
    reveal_strlit("flashcards");
    assert("flashcards"@.len() == 10);
    assert("flashcards"@[0] == 'f');
    assert("flashcards"@[1] == 'l');
    assert("flashcards"@[2] == 'a');
    assert("flashcards"@[3] == 's');
    assert("flashcards"@[4] == 'h');
    assert("flashcards"@[5] == 'c');
    assert("flashcards"@[6] == 'a');
    assert("flashcards"@[7] == 'r');
    assert("flashcards"@[8] == 'd');
    assert("flashcards"@[9] == 's');
    let o = silver_section_0_outline();
    assert(o.3.len() == 3);
    assert forall|i: int, j: int| 0 <= i < j < o.3.len() implies #[trigger] o.3[i].0 != #[trigger] o.3[j].0 by {
        assert(o.3[0].0 == "video"@);
        assert(o.3[1].0 == "skill"@);
        assert(o.3[2].0 == "flashcards"@);
    }
}

proof fn lemma_silver_1_keys_distinct()
    ensures
        activity_keys_distinct(silver_section_1_outline()),
{
    reveal_strlit("mend");
    assert("mend"@.len() == 4);
    assert("mend"@[0] == 'm');
    assert("mend"@[1] == 'e');
    assert("mend"@[2] == 'n');
    assert("mend"@[3] == 'd');
    reveal_strlit("meals");
    assert("meals"@.len() == 5);
    assert("meals"@[0] == 'm');
    assert("meals"@[1] == 'e');
    assert("meals"@[2] == 'a');
    assert("meals"@[3] == 'l');
    assert("meals"@[4] == 's');
    reveal_strlit("prices");
    assert("prices"@.len() == 6);
    assert("prices"@[0] == 'p');
    assert("prices"@[1] == 'r');
    assert("prices"@[2] == 'i');
    assert("prices"@[3] == 'c');
    assert("prices"@[4] == 'e');
    assert("prices"@[5] == 's');
    let o = silver_section_1_outline();
    assert(o.3.len() == 3);
    assert forall|i: int, j: int| 0 <= i < j < o.3.len() implies #[trigger] o.3[i].0 != #[trigger] o.3[j].0 by {
        assert(o.3[0].0 == "mend"@);
        assert(o.3[1].0 == "meals"@);
        assert(o.3[2].0 == "prices"@);
    }
}

proof fn lemma_silver_2_keys_distinct()
    ensures
        activity_keys_distinct(silver_section_2_outline()),
{
    reveal_strlit("maintenance");
    assert("maintenance"@.len() == 11);
    assert("maintenance"@[0] == 'm');
    assert("maintenance"@[1] == 'a');
    assert("maintenance"@[2] == 'i');
    assert("maintenance"@[3] == 'n');
    assert("maintenance"@[4] == 't');
    assert("maintenance"@[5] == 'e');
    assert("maintenance"@[6] == 'n');
    assert("maintenance"@[7] == 'a');
    assert("maintenance"@[8] == 'n');
    assert("maintenance"@[9] == 'c');
    assert("maintenance"@[10] == 'e');
    reveal_strlit("tech");
    assert("tech"@.len() == 4);
    assert("tech"@[0] == 't');
    assert("tech"@[1] == 'e');
    assert("tech"@[2] == 'c');
    assert("tech"@[3] == 'h');
    reveal_strlit("bathroom");
    assert("bathroom"@.len() == 8);
    assert("bathroom"@[0] == 'b');
    assert("bathroom"@[1] == 'a');
    assert("bathroom"@[2] == 't');
    assert("bathroom"@[3] == 'h');
    assert("bathroom"@[4] == 'r');
    assert("bathroom"@[5] == 'o');
    assert("bathroom"@[6] == 'o');
    assert("bathroom"@[7] == 'm');
    let o = silver_section_2_outline();
    assert(o.3.len() == 3);
    assert forall|i: int, j: int| 0 <= i < j < o.3.len() implies #[trigger] o.3[i].0 != #[trigger] o.3[j].0 by {
        assert(o.3[0].0 == "maintenance"@);
        assert(o.3[1].0 == "tech"@);
        assert(o.3[2].0 == "bathroom"@);
    }
}

proof fn lemma_silver_3_keys_distinct()
    ensures
        activity_keys_distinct(silver_section_3_outline()),
{
    reveal_strlit("first_aid");
    assert("first_aid"@.len() == 9);
    assert("first_aid"@[0] == 'f');
    assert("first_aid"@[1] == 'i');
    assert("first_aid"@[2] == 'r');
    assert("first_aid"@[3] == 's');
    assert("first_aid"@[4] == 't');
    assert("first_aid"@[5] == '_');
    assert("first_aid"@[6] == 'a');
    assert("first_aid"@[7] == 'i');
    assert("first_aid"@[8] == 'd');
    let o = silver_section_3_outline();
    assert(o.3.len() == 1);
    assert forall|i: int, j: int| 0 <= i < j < o.3.len() implies #[trigger] o.3[i].0 != #[trigger] o.3[j].0 by {
        assert(o.3[0].0 == "first_aid"@);
    }
}

proof fn lemma_silver_4_keys_distinct()
    ensures
        activity_keys_distinct(silver_section_4_outline()),
{
    reveal_strlit("run");
    assert("run"@.len() == 3);
    assert("run"@[0] == 'r');
    assert("run"@[1] == 'u');
    assert("run"@[2] == 'n');
    reveal_strlit("walk");
    assert("walk"@.len() == 4);
    assert("walk"@[0] == 'w');
    assert("walk"@[1] == 'a');
    assert("walk"@[2] == 'l');
    assert("walk"@[3] == 'k');
    reveal_strlit("bike");
    assert("bike"@.len() == 4);
    assert("bike"@[0] == 'b');
    assert("bike"@[1] == 'i');
    assert("bike"@[2] == 'k');
    assert("bike"@[3] == 'e');
    reveal_strlit("swim");
    assert("swim"@.len() == 4);
    assert("swim"@[0] == 's');
    assert("swim"@[1] == 'w');
    assert("swim"@[2] == 'i');
    assert("swim"@[3] == 'm');
    reveal_strlit("machine");
    assert("machine"@.len() == 7);
    assert("machine"@[0] == 'm');
    assert("machine"@[1] == 'a');
    assert("machine"@[2] == 'c');
    assert("machine"@[3] == 'h');
    assert("machine"@[4] == 'i');
    assert("machine"@[5] == 'n');
    assert("machine"@[6] == 'e');
    reveal_strlit("stretch");
    assert("stretch"@.len() == 7);
    assert("stretch"@[0] == 's');
    assert("stretch"@[1] == 't');
    assert("stretch"@[2] == 'r');
    assert("stretch"@[3] == 'e');
    assert("stretch"@[4] == 't');
    assert("stretch"@[5] == 'c');
    assert("stretch"@[6] == 'h');
    let o = silver_section_4_outline();
    assert(o.3.len() == 6);
    assert forall|i: int, j: int| 0 <= i < j < o.3.len() implies #[trigger] o.3[i].0 != #[trigger] o.3[j].0 by {
        assert(o.3[0].0 == "run"@);
        assert(o.3[1].0 == "walk"@);
        assert(o.3[2].0 == "bike"@);
        assert(o.3[3].0 == "swim"@);
        assert(o.3[4].0 == "machine"@);
        assert(o.3[5].0 == "stretch"@);
    }
}

proof fn lemma_silver_5_keys_distinct()
    ensures
        activity_keys_distinct(silver_section_5_outline()),
{
    reveal_strlit("trip");
    assert("trip"@.len() == 4);
    assert("trip"@[0] == 't');
    assert("trip"@[1] == 'r');
    assert("trip"@[2] == 'i');
    assert("trip"@[3] == 'p');
    reveal_strlit("camping");
    assert("camping"@.len() == 7);
    assert("camping"@[0] == 'c');
    assert("camping"@[1] == 'a');
    assert("camping"@[2] == 'm');
    assert("camping"@[3] == 'p');
    assert("camping"@[4] == 'i');
    assert("camping"@[5] == 'n');
    assert("camping"@[6] == 'g');
    reveal_strlit("climb");
    assert("climb"@.len() == 5);
    assert("climb"@[0] == 'c');
    assert("climb"@[1] == 'l');
    assert("climb"@[2] == 'i');
    assert("climb"@[3] == 'm');
    assert("climb"@[4] == 'b');
    let o = silver_section_5_outline();
    assert(o.3.len() == 3);
    assert forall|i: int, j: int| 0 <= i < j < o.3.len() implies #[trigger] o.3[i].0 != #[trigger] o.3[j].0 by {
        assert(o.3[0].0 == "trip"@);
        assert(o.3[1].0 == "camping"@);
        assert(o.3[2].0 == "climb"@);
    }
}

proof fn lemma_gold_0_keys_distinct()
    ensures
        activity_keys_distinct(gold_section_0_outline()),
{
    reveal_strlit("skill");
    assert("skill"@.len() == 5);
    assert("skill"@[0] == 's');
    assert("skill"@[1] == 'k');
    assert("skill"@[2] == 'i');
    assert("skill"@[3] == 'l');
    assert("skill"@[4] == 'l');
    reveal_strlit("trailer");
    assert("trailer"@.len() == 7);
    assert("trailer"@[0] == 't');
    assert("trailer"@[1] == 'r');
    assert("trailer"@[2] == 'a');
    assert("trailer"@[3] == 'i');
    assert("trailer"@[4] == 'l');
    assert("trailer"@[5] == 'e');
    assert("trailer"@[6] == 'r');
    reveal_strlit("brand");
    assert("brand"@.len() == 5);
    assert("brand"@[0] == 'b');
    assert("brand"@[1] == 'r');
    assert("brand"@[2] == 'a');
    assert("brand"@[3] == 'n');
    assert("brand"@[4] == 'd');
    let o = gold_section_0_outline();
    assert(o.3.len() == 3);
    assert forall|i: int, j: int| 0 <= i < j < o.3.len() implies #[trigger] o.3[i].0 != #[trigger] o.3[j].0 by {
        assert(o.3[0].0 == "skill"@);
        assert(o.3[1].0 == "trailer"@);
        assert(o.3[2].0 == "brand"@);
    }
}

proof fn lemma_gold_1_keys_distinct()
    ensures
        activity_keys_distinct(gold_section_1_outline()),
{
    reveal_strlit("coupons");
    assert("coupons"@.len() == 7);
    assert("coupons"@[0] == 'c');
    assert("coupons"@[1] == 'o');
    assert("coupons"@[2] == 'u');
    assert("coupons"@[3] == 'p');
    assert("coupons"@[4] == 'o');
    assert("coupons"@[5] == 'n');
    assert("coupons"@[6] == 's');
    reveal_strlit("live_for_less");
    assert("live_for_less"@.len() == 13);
    assert("live_for_less"@[0] == 'l');
    assert("live_for_less"@[1] == 'i');
    assert("live_for_less"@[2] == 'v');
    assert("live_for_less"@[3] == 'e');
    assert("live_for_less"@[4] == '_');
    assert("live_for_less"@[5] == 'f');
    assert("live_for_less"@[6] == 'o');
    assert("live_for_less"@[7] == 'r');
    assert("live_for_less"@[8] == '_');
    assert("live_for_less"@[9] == 'l');
    assert("live_for_less"@[10] == 'e');
    assert("live_for_less"@[11] == 's');
    assert("live_for_less"@[12] == 's');
    reveal_strlit("saving");
    assert("saving"@.len() == 6);
    assert("saving"@[0] == 's');
    assert("saving"@[1] == 'a');
    assert("saving"@[2] == 'v');
    assert("saving"@[3] == 'i');
    assert("saving"@[4] == 'n');
    assert("saving"@[5] == 'g');
    let o = gold_section_1_outline();
    assert(o.3.len() == 3);
    assert forall|i: int, j: int| 0 <= i < j < o.3.len() implies #[trigger] o.3[i].0 != #[trigger] o.3[j].0 by {
        assert(o.3[0].0 == "coupons"@);
        assert(o.3[1].0 == "live_for_less"@);
        assert(o.3[2].0 == "saving"@);
    }
}

proof fn lemma_gold_2_keys_distinct()
    ensures
        activity_keys_distinct(gold_section_2_outline()),
{
    reveal_strlit("letter");
    assert("letter"@.len() == 6);
    assert("letter"@[0] == 'l');
    assert("letter"@[1] == 'e');
    assert("letter"@[2] == 't');
    assert("letter"@[3] == 't');
    assert("letter"@[4] == 'e');
    assert("letter"@[5] == 'r');
    reveal_strlit("food");
    assert("food"@.len() == 4);
    assert("food"@[0] == 'f');
    assert("food"@[1] == 'o');
    assert("food"@[2] == 'o');
    assert("food"@[3] == 'd');
    reveal_strlit("clean");
    assert("clean"@.len() == 5);
    assert("clean"@[0] == 'c');
    assert("clean"@[1] == 'l');
    assert("clean"@[2] == 'e');
    assert("clean"@[3] == 'a');
    assert("clean"@[4] == 'n');
    reveal_strlit("drink");
    assert("drink"@.len() == 5);
    assert("drink"@[0] == 'd');
    assert("drink"@[1] == 'r');
    assert("drink"@[2] == 'i');
    assert("drink"@[3] == 'n');
    assert("drink"@[4] == 'k');
    let o = gold_section_2_outline();
    assert(o.3.len() == 4);
    assert forall|i: int, j: int| 0 <= i < j < o.3.len() implies #[trigger] o.3[i].0 != #[trigger] o.3[j].0 by {
        assert(o.3[0].0 == "letter"@);
        assert(o.3[1].0 == "food"@);
        assert(o.3[2].0 == "clean"@);
        assert(o.3[3].0 == "drink"@);
    }
}

proof fn lemma_gold_3_keys_distinct()
    ensures
        activity_keys_distinct(gold_section_3_outline()),
{
    reveal_strlit("first_aid");
    assert("first_aid"@.len() == 9);
    assert("first_aid"@[0] == 'f');
    assert("first_aid"@[1] == 'i');
    assert("first_aid"@[2] == 'r');
    assert("first_aid"@[3] == 's');
    assert("first_aid"@[4] == 't');
    assert("first_aid"@[5] == '_');
    assert("first_aid"@[6] == 'a');
    assert("first_aid"@[7] == 'i');
    assert("first_aid"@[8] == 'd');
    let o = gold_section_3_outline();
    assert(o.3.len() == 1);
    assert forall|i: int, j: int| 0 <= i < j < o.3.len() implies #[trigger] o.3[i].0 != #[trigger] o.3[j].0 by {
        assert(o.3[0].0 == "first_aid"@);
    }
}

proof fn lemma_gold_4_keys_distinct()
    ensures
        activity_keys_distinct(gold_section_4_outline()),
{
    reveal_strlit("run");
    assert("run"@.len() == 3);
    assert("run"@[0] == 'r');
    assert("run"@[1] == 'u');
    assert("run"@[2] == 'n');
    reveal_strlit("walk");
    assert("walk"@.len() == 4);
    assert("walk"@[0] == 'w');
    assert("walk"@[1] == 'a');
    assert("walk"@[2] == 'l');
    assert("walk"@[3] == 'k');
    reveal_strlit("bike");
    assert("bike"@.len() == 4);
    assert("bike"@[0] == 'b');
    assert("bike"@[1] == 'i');
    assert("bike"@[2] == 'k');
    assert("bike"@[3] == 'e');
    reveal_strlit("swim");
    assert("swim"@.len() == 4);
    assert("swim"@[0] == 's');
    assert("swim"@[1] == 'w');
    assert("swim"@[2] == 'i');
    assert("swim"@[3] == 'm');
    reveal_strlit("machine");
    assert("machine"@.len() == 7);
    assert("machine"@[0] == 'm');
    assert("machine"@[1] == 'a');
    assert("machine"@[2] == 'c');
    assert("machine"@[3] == 'h');
    assert("machine"@[4] == 'i');
    assert("machine"@[5] == 'n');
    assert("machine"@[6] == 'e');
    reveal_strlit("stretch");
    assert("stretch"@.len() == 7);
    assert("stretch"@[0] == 's');
    assert("stretch"@[1] == 't');
    assert("stretch"@[2] == 'r');
    assert("stretch"@[3] == 'e');
    assert("stretch"@[4] == 't');
    assert("stretch"@[5] == 'c');
    assert("stretch"@[6] == 'h');
    let o = gold_section_4_outline();
    assert(o.3.len() == 6);
    assert forall|i: int, j: int| 0 <= i < j < o.3.len() implies #[trigger] o.3[i].0 != #[trigger] o.3[j].0 by {
        assert(o.3[0].0 == "run"@);
        assert(o.3[1].0 == "walk"@);
        assert(o.3[2].0 == "bike"@);
        assert(o.3[3].0 == "swim"@);
        assert(o.3[4].0 == "machine"@);
        assert(o.3[5].0 == "stretch"@);
    }
}

proof fn lemma_gold_5_keys_distinct()
    ensures
        activity_keys_distinct(gold_section_5_outline()),
{
    reveal_strlit("camping");
    assert("camping"@.len() == 7);
    assert("camping"@[0] == 'c');
    assert("camping"@[1] == 'a');
    assert("camping"@[2] == 'm');
    assert("camping"@[3] == 'p');
    assert("camping"@[4] == 'i');
    assert("camping"@[5] == 'n');
    assert("camping"@[6] == 'g');
    reveal_strlit("tour");
    assert("tour"@.len() == 4);
    assert("tour"@[0] == 't');
    assert("tour"@[1] == 'o');
    assert("tour"@[2] == 'u');
    assert("tour"@[3] == 'r');
    reveal_strlit("adventure");
    assert("adventure"@.len() == 9);
    assert("adventure"@[0] == 'a');
    assert("adventure"@[1] == 'd');
    assert("adventure"@[2] == 'v');
    assert("adventure"@[3] == 'e');
    assert("adventure"@[4] == 'n');
    assert("adventure"@[5] == 't');
    assert("adventure"@[6] == 'u');
    assert("adventure"@[7] == 'r');
    assert("adventure"@[8] == 'e');
    let o = gold_section_5_outline();
    assert(o.3.len() == 3);
    assert forall|i: int, j: int| 0 <= i < j < o.3.len() implies #[trigger] o.3[i].0 != #[trigger] o.3[j].0 by {
        assert(o.3[0].0 == "camping"@);
        assert(o.3[1].0 == "tour"@);
        assert(o.3[2].0 == "adventure"@);
    }
}

/// Within each section of either award no two activities share a key, and
/// the two awards' keys differ: each name finds one activity and one award.
pub proof fn law_keys_distinct()
    ensures
        forall|i: int| 0 <= i < 6 ==> activity_keys_distinct(#[trigger] silver_outline()[i]),
        forall|i: int| 0 <= i < 6 ==> activity_keys_distinct(#[trigger] gold_outline()[i]),
        "silver"@ != "gold"@,
{
    reveal_strlit("silver");
    assert("silver"@.len() == 6);
    assert("silver"@[0] == 's');
    assert("silver"@[1] == 'i');
    assert("silver"@[2] == 'l');
    assert("silver"@[3] == 'v');
    assert("silver"@[4] == 'e');
    assert("silver"@[5] == 'r');
    reveal_strlit("gold");
    assert("gold"@.len() == 4);
    assert("gold"@[0] == 'g');
    assert("gold"@[1] == 'o');
    assert("gold"@[2] == 'l');
    assert("gold"@[3] == 'd');
    lemma_silver_0_keys_distinct();
    lemma_silver_1_keys_distinct();
    lemma_silver_2_keys_distinct();
    lemma_silver_3_keys_distinct();
    lemma_silver_4_keys_distinct();
    lemma_silver_5_keys_distinct();
    lemma_gold_0_keys_distinct();
    lemma_gold_1_keys_distinct();
    lemma_gold_2_keys_distinct();
    lemma_gold_3_keys_distinct();
    lemma_gold_4_keys_distinct();
    lemma_gold_5_keys_distinct();
    assert forall|i: int| 0 <= i < 6 implies activity_keys_distinct(#[trigger] silver_outline()[i]) by {
        assert(silver_outline()[i] == seq![
            silver_section_0_outline(),
            silver_section_1_outline(),
            silver_section_2_outline(),
            silver_section_3_outline(),
            silver_section_4_outline(),
            silver_section_5_outline(),
        ][i]);
    }
    assert forall|i: int| 0 <= i < 6 implies activity_keys_distinct(#[trigger] gold_outline()[i]) by {
        assert(gold_outline()[i] == seq![
            gold_section_0_outline(),
            gold_section_1_outline(),
            gold_section_2_outline(),
            gold_section_3_outline(),
            gold_section_4_outline(),
            gold_section_5_outline(),
        ][i]);
    }
}

/// The outlines of six sections.
pub open spec fn outlines(sections: Seq<SectionInfo>) -> Seq<SectionOutline> {
    sections.map_values(|s: SectionInfo| s.outline())
}

/// None of the sections has an activity with components.
pub open spec fn all_without_components(sections: Seq<SectionInfo>) -> bool {
    forall|i: int| 0 <= i < sections.len() ==> #[trigger] sections[i].has_no_components()
}

impl SectionInfo {
    /// The six sections of the silver award.
    pub fn silver_sections_list() -> (res: [SectionInfo; 6])
        ensures
            outlines(res@) == silver_outline(),
            all_without_components(res@),
    {
        let res = [
            silver_section_0(),
            silver_section_1(),
            silver_section_2(),
            silver_section_3(),
            silver_section_4(),
            silver_section_5(),
        ];
        assert(outlines(res@) =~= silver_outline());
        res
    }

    /// The six sections of the gold award.
    pub fn gold_sections_list() -> (res: [SectionInfo; 6])
        ensures
            outlines(res@) == gold_outline(),
            all_without_components(res@),
    {
        let res = [
            gold_section_0(),
            gold_section_1(),
            gold_section_2(),
            gold_section_3(),
            gold_section_4(),
            gold_section_5(),
        ];
        assert(outlines(res@) =~= gold_outline());
        res
    }
}

/// An award and its six sections.
#[derive(Debug, Clone, PartialEq)]
pub struct AwardInfo {
    pub name: String,
    pub short_name: String,
    pub image_url: String,
    pub sections: [SectionInfo; 6],
}

impl AwardInfo {
    /// The awards on offer, each under its key: `silver` and `gold`.
    pub fn awards() -> (res: Vec<(String, AwardInfo)>)
        ensures
            res@.len() == 2,
            res@[0].0@ == "silver"@,
            res@[0].1.name@ == "Silver Senior Duke"@,
            res@[0].1.short_name@ == "Silver"@,
            res@[0].1.image_url@ == "/assets/icons/silver.png"@,
            outlines(res@[0].1.sections@) == silver_outline(),
            all_without_components(res@[0].1.sections@),
            res@[1].0@ == "gold"@,
            res@[1].1.name@ == "Gold Senior Duke"@,
            res@[1].1.short_name@ == "Gold"@,
            res@[1].1.image_url@ == "/assets/icons/gold.png"@,
            outlines(res@[1].1.sections@) == gold_outline(),
            all_without_components(res@[1].1.sections@),
    {
        let mut res: Vec<(String, AwardInfo)> = Vec::new();
        res.push((
            "silver".to_owned(),
            AwardInfo {
                name: "Silver Senior Duke".to_owned(),
                short_name: "Silver".to_owned(),
                image_url: "/assets/icons/silver.png".to_owned(),
                sections: SectionInfo::silver_sections_list(),
            },
        ));
        res.push((
            "gold".to_owned(),
            AwardInfo {
                name: "Gold Senior Duke".to_owned(),
                short_name: "Gold".to_owned(),
                image_url: "/assets/icons/gold.png".to_owned(),
                sections: SectionInfo::gold_sections_list(),
            },
        ));
        res
    }
}

/// The activity a section refers to within a list of awards: the first
/// award under the section's award key, its section at the section's index,
/// and in it the first activity under the section's activity key.
pub open spec fn activity_of(section: &Section, awards: Seq<(String, AwardInfo)>) -> Option<Activity> {
    match first_key(awards, section.award@) {
        Some(a) => if section.section_index < 6 {
            let info = awards[a].1.sections@[section.section_index as int];
            match first_key(info.activities@, section.activity@) {
                Some(i) => Some(info.activities@[i].1),
                None => None,
            }
        } else {
            None
        },
        None => None,
    }
}

impl Section {
    /// The activity this section is about, looked up in the awards.
    pub fn get_activity<'b>(&self, awards: &'b Vec<(String, AwardInfo)>) -> (res: Option<&'b Activity>)
        ensures
            match activity_of(self, awards@) {
                Some(a) => res == Some(&a),
                None => res is None,
            },
    {
        if let Some(a) = find_key(awards, self.award.as_str()) {
            if self.section_index < 6 {
                let info = &awards[a].1.sections[self.section_index];
                return info.activity(self.activity.as_str());
            }
        }
        None
    }
}

} // verus!
