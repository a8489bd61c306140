use vstd::prelude::*;
use crate::data::text_pairs;
use crate::keys::{OrgKey, UserKey};
use crate::section::{Section, SectionInfo, SectionState, first_key};
use crate::section_store::SectionStateView;
use crate::user::{Privilege, UserAgent};
use crate::util;

verus! {

/// What a viewer may do on a user's page.
#[derive(Debug, Clone, Copy, PartialEq, Eq, Structural)]
pub enum UserPageAccess {
    /// The page is refused.
    Denied,
    /// The page is shown; `manage_notifications` tells whether the viewer
    /// may switch the user's notification emails there.
    Granted { manage_notifications: bool },
}

/// Whether the viewer may see another user's page: a member of an
/// organisation by those who may see the organisation, anyone else by the
/// root and by those of a higher level.
pub open spec fn may_view_profile(viewer: UserAgent, target: UserAgent) -> bool {
    match target.org() {
        Some(org_id) => viewer.may_view_org(org_id),
        None => viewer.level() is RootLevel || viewer.level().rank() > target.level().rank(),
    }
}

/// What the viewer may do on the target's page: users see their own page
/// and the pages they may view; the notification switch is theirs and the
/// root's.
pub open spec fn user_page_access_spec(viewer_id: UserKey, viewer: UserAgent, target_id: UserKey, target: UserAgent) -> UserPageAccess {
    if viewer_id == target_id || may_view_profile(viewer, target) {
        UserPageAccess::Granted { manage_notifications: viewer_id == target_id || viewer.level() is RootLevel }
    } else {
        UserPageAccess::Denied
    }
}

/// What the viewer may do on the target's page.
pub fn user_page_access(viewer_id: UserKey, viewer: &UserAgent, target_id: UserKey, target: &UserAgent) -> (res: UserPageAccess)
    ensures
        res == user_page_access_spec(viewer_id, *viewer, target_id, *target),
{
    let mut can_view_user: bool = false;
    if let Some(org_id) = target.org_id() {
        if viewer.can_view_org(&org_id) {
            can_view_user = true;
        }
    } else {
        if viewer.privilege().is_root() {
            can_view_user = true;
        } else if viewer.privilege().magnitude() > target.privilege().magnitude() {
            can_view_user = true;
        }
    }
    let is_active_user = viewer_id == target_id;
    if is_active_user || can_view_user {
        UserPageAccess::Granted { manage_notifications: is_active_user || viewer.privilege().is_root() }
    } else {
        UserPageAccess::Denied
    }
}

/// Whether the viewer may switch the target's notification emails: their
/// own, and those of the members of organisations the viewer may see.
pub fn may_set_notifications(viewer_id: UserKey, viewer: &UserAgent, target_id: UserKey, target: &UserAgent) -> (res: bool)
    ensures
        res == (viewer_id == target_id || (target.org() matches Some(o) && viewer.may_view_org(o))),
{
    let mut can_view_org: bool = false;
    if let Some(org_id) = target.org_id() {
        if viewer.can_view_org(&org_id) {
            can_view_org = true;
        }
    }
    viewer_id == target_id || can_view_org
}

/// Whether the viewer may see and work on a pupil's dashboard and sections:
/// the pupil themself, or a viewer who may see the pupil.
pub fn may_work_on(viewer_id: UserKey, viewer: &UserAgent, pupil_id: UserKey, pupil: &UserAgent) -> (res: bool)
    ensures
        res == (viewer_id == pupil_id || viewer.may_view_user(pupil)),
{
    viewer.can_view_user(pupil) || viewer_id == pupil_id
}

/// How a notification setting reads.
pub fn notifications_label(flag: bool) -> (res: String)
    ensures
        res@ == if flag {
            "On"@
        } else {
            "Off"@
        },
{
    if flag {
        "On".to_owned()
    } else {
        "Off".to_owned()
    }
}

/// The items of a page's path a user of the given level sees: those
/// needing at most that level, in order.
pub open spec fn visible_items(level: Privilege, items: Seq<(String, String, Privilege)>) -> Seq<(Seq<char>, Seq<char>)>
    decreases items.len(),
{
    if items.len() == 0 {
        Seq::empty()
    } else {
        let rest = visible_items(level, items.drop_last());
        if level.rank() >= items.last().2.rank() {
            rest.push((items.last().0@, items.last().1@))
        } else {
            rest
        }
    }
}

/// The items of a page's path (address, title and the level needed to see
/// it) that a user of the given level sees, in order.
pub fn visible_path_items(level: &Privilege, items: &Vec<(String, String, Privilege)>) -> (res: Vec<(String, String)>)
    ensures
        text_pairs(res@) == visible_items(*level, items@),
{
    let mut out: Vec<(String, String)> = Vec::new();
    let mut i: usize = 0;
    while i < items.len()
        invariant
            i <= items@.len(),
            text_pairs(out@) == visible_items(*level, items@.take(i as int)),
        decreases items@.len() - i,
    {
        let ghost before = out@;
        proof {
            assert(items@.take(i + 1).drop_last() =~= items@.take(i as int));
            assert(items@.take(i + 1).last() == items@[i as int]);
        }
        if level.magnitude() >= items[i].2.magnitude() {
            out.push((items[i].0.clone(), items[i].1.clone()));
            assert(text_pairs(out@) =~= text_pairs(before).push((items@[i as int].0@, items@[i as int].1@)));
        }
        i = i + 1;
    }
    assert(items@.take(items@.len() as int) =~= items@);
    out
}

/// The style class of an organisation's navigation item: selected when it
/// leads to the page shown.
pub fn nav_item_class(url: &str, path: &str) -> (res: String)
    ensures
        res@ == if url@ == path@ {
            "org-nav-item-selected"@
        } else {
            "org-nav-item"@
        },
{
    if util::same_text(url, path) {
        "org-nav-item-selected".to_owned()
    } else {
        "org-nav-item".to_owned()
    }
}

/// The colour a section state is shown in.
pub open spec fn state_color(s: SectionStateView) -> Seq<char> {
    match s {
        SectionStateView::InProgress => "rgb(175, 175, 175)"@,
        SectionStateView::Rejected(_) => "red"@,
        SectionStateView::InReview(_) => "orange"@,
        SectionStateView::Completed => "green"@,
    }
}

/// The style of a section's bubble on the pupils' list: its state's colour,
/// and a pink border when it is outstanding.
pub open spec fn section_style_text(state: SectionStateView, outstanding: bool) -> Seq<char> {
    "background-color: "@ + state_color(state) + "; "@ + if outstanding {
        "border: 1px solid pink;"@
    } else {
        "border: none;"@
    }
}

/// The style of a section's bubble on the pupils' list.
pub fn section_style(state: &SectionState, outstanding: bool) -> (res: String)
    ensures
        res@ == section_style_text(state@, outstanding),
{
    let border: &str = if outstanding {
        "border: 1px solid pink;"
    } else {
        "border: none;"
    };
    "background-color: ".to_owned().concat(state.css_color().as_str()).concat("; ").concat(border)
}

/// The styles of a pupil's six section bubbles (empty for a section not
/// chosen or not found) and how many of the sections are in review.
pub open spec fn section_styles_spec(sections: Seq<Option<(SectionStateView, bool)>>) -> (Seq<Seq<char>>, nat)
    decreases sections.len(),
{
    if sections.len() == 0 {
        (Seq::empty(), 0)
    } else {
        let (styles, count) = section_styles_spec(sections.drop_last());
        match sections.last() {
            Some((state, outstanding)) => (
                styles.push(section_style_text(state, outstanding)),
                if state is InReview {
                    count + 1
                } else {
                    count
                },
            ),
            None => (styles.push(Seq::empty()), count),
        }
    }
}

/// Only sections in review count as awaiting review: a pupil with no
/// sections has none; each further section adds one to the count when it is
/// found in review, and nothing when it is not found or is in any other
/// state (in progress, rejected or completed); and there is one bubble per
/// section.
pub proof fn law_unreviewed_counts_in_review(
    sections: Seq<Option<(SectionStateView, bool)>>,
    next: Option<(SectionStateView, bool)>,
)
    ensures
        section_styles_spec(Seq::empty()).1 == 0,
        section_styles_spec(sections.push(next)).1 == section_styles_spec(sections).1 + if (next matches Some(
            (st, _),
        ) && st is InReview) {
            1nat
        } else {
            0nat
        },
        section_styles_spec(sections).0.len() == sections.len(),
        section_styles_spec(sections).1 <= sections.len(),
    decreases sections.len(),
{
    assert(sections.push(next).drop_last() =~= sections);
    if sections.len() > 0 {
        law_unreviewed_counts_in_review(sections.drop_last(), sections.last());
    }
}

/// The states of a pupil's sections as found, each with whether it is
/// outstanding.
pub open spec fn found_states(v: Seq<Option<Section>>) -> Seq<Option<(SectionStateView, bool)>> {
    v.map_values(
        |e: Option<Section>|
            match e {
                Some(s) => Some((s.state@, s.outstanding)),
                None => None,
            },
    )
}

/// The styles of a pupil's section bubbles, from the sections found, and
/// the number of sections in review.
pub fn section_styles(sections: &Vec<Option<Section>>) -> (res: (Vec<String>, u32))
    requires
        sections@.len() <= u32::MAX,
    ensures
        (crate::section::texts(res.0@), res.1 as nat) == section_styles_spec(found_states(sections@)),
{
    let mut styles: Vec<String> = Vec::new();
    let mut unreviewed: u32 = 0;
    let mut i: usize = 0;
    while i < sections.len()
        invariant
            i <= sections@.len(),
            sections@.len() <= u32::MAX,
            (crate::section::texts(styles@), unreviewed as nat) == section_styles_spec(
                found_states(sections@.take(i as int)),
            ),
            unreviewed <= i,
        decreases sections@.len() - i,
    {
        let ghost before = styles@;
        proof {
            assert(found_states(sections@.take(i + 1)).drop_last() =~= found_states(sections@.take(i as int)));
            assert(found_states(sections@.take(i + 1)).last() == found_states(sections@)[i as int]);
        }
        match &sections[i] {
            Some(section) => {
                styles.push(section_style(&section.state, section.outstanding));
                if let SectionState::InReview(_) = section.state {
                    unreviewed = unreviewed + 1;
                }
            },
            None => {
                styles.push(String::new());
            },
        }
        assert(crate::section::texts(styles@) =~= crate::section::texts(before).push(styles@.last()@));
        i = i + 1;
    }
    assert(sections@.take(sections@.len() as int) =~= sections@);
    (styles, unreviewed)
}

/// Whether the user is a pupil of the organisation.
pub fn is_client_of(agent: &UserAgent, org_id: OrgKey) -> (res: bool)
    ensures
        res == (agent matches UserAgent::Client { org_id: o, .. } && o == org_id),
{
    match agent {
        UserAgent::Client { org_id: o, .. } => *o == org_id,
        _ => false,
    }
}

/// Whether the user is a teacher of the organisation.
pub fn is_associate_of(agent: &UserAgent, org_id: OrgKey) -> (res: bool)
    ensures
        res == (agent matches UserAgent::Associate(o) && o == org_id),
{
    match agent {
        UserAgent::Associate(o) => *o == org_id,
        _ => false,
    }
}

/// What a bubble of a pupil's dashboard shows of one section: the
/// activity's title and its style class, the state's text and its style
/// class.
pub type Bubble = (String, String, String, String);

/// The texts of a bubble.
pub open spec fn bubble_texts(b: Bubble) -> (Seq<char>, Seq<char>, Seq<char>, Seq<char>) {
    (b.0@, b.1@, b.2@, b.3@)
}

/// The state's text on a bubble, with a pink mark when outstanding.
pub open spec fn bubble_state_text(s: Section) -> Seq<char> {
    s.state@.name() + if s.outstanding {
        " - <span style=\"color: pink;\">Outstanding</span>"@
    } else {
        Seq::empty()
    }
}

/// What a bubble shows: an invitation while no activity is chosen, an
/// error when the chosen section or its activity cannot be found, else the
/// activity's name and the section's state.
pub open spec fn bubble_spec(info: SectionInfo, chosen: bool, found: Option<Section>) -> (Seq<char>, Seq<char>, Seq<char>, Seq<char>) {
    if !chosen {
        ("Click to Select Challenge"@, "activity-not-chosen"@, "Not Started"@, Seq::empty())
    } else {
        match found {
            Some(s) => match first_key(info.activities@, s.activity@) {
                Some(i) => (
                    info.activities@[i].1.name@,
                    "activity-chosen"@,
                    bubble_state_text(s),
                    s.state@.css_class_text(),
                ),
                None => ("ERROR"@, "activity-not-chosen"@, Seq::empty(), Seq::empty()),
            },
            None => ("ERROR"@, "activity-not-chosen"@, Seq::empty(), Seq::empty()),
        }
    }
}

/// What the bubble of a section of a pupil's dashboard shows, given the
/// section's description, whether an activity was chosen, and the chosen
/// section if it was found.
pub fn section_bubble(info: &SectionInfo, chosen: bool, found: Option<&Section>) -> (res: Bubble)
    ensures
        bubble_texts(res) == bubble_spec(*info, chosen, match found {
            Some(s) => Some(*s),
            None => None,
        }),
{
    if !chosen {
        return (
            "Click to Select Challenge".to_owned(),
            "activity-not-chosen".to_owned(),
            "Not Started".to_owned(),
            String::new(),
        );
    }
    match found {
        Some(s) => match info.activity(s.activity.as_str()) {
            Some(activity) => {
                let mark: &str = if s.outstanding {
                    " - <span style=\"color: pink;\">Outstanding</span>"
                } else {
                    ""
                };
                let state = s.state.to_string();
                let ghost st = state@;
                let text = state.concat(mark);
                proof {
                    if !s.outstanding {
                        reveal_strlit("");
                        assert(text@ =~= st + Seq::<char>::empty());
                    }
                }
                (activity.name.clone(), "activity-chosen".to_owned(), text, s.state.css_class())
            },
            None => ("ERROR".to_owned(), "activity-not-chosen".to_owned(), String::new(), String::new()),
        },
        None => ("ERROR".to_owned(), "activity-not-chosen".to_owned(), String::new(), String::new()),
    }
}

/// Whether the path above a pupil's dashboard is hidden: from pupils.
pub fn dashboard_header_hidden(viewer: &UserAgent) -> (res: bool)
    ensures
        res == (viewer.level() is ClientLevel),
{
    match viewer.privilege() {
        Privilege::ClientLevel => true,
        _ => false,
    }
}

} // verus!
