use vstd::prelude::*;
use crate::codec::{Record, decodes_to, is_record_bytes, record_bytes};
use crate::data::SharedData;
use crate::db::{StoreError, StoreKey, read_outcome};
use crate::keys::{OrgKey, SectionKey, UserKey};
use crate::page::{found_states, section_styles, section_styles_spec};
use crate::section::{Section, find_key, first_key, texts};
use crate::user::{AgentView, User, UserAgent, UserView};

verus! {

/// Whether `found` is what reading the user `id` from `d` gives: the user
/// as stored, when found; when nothing is found and `read` says that no read
/// failed, no user is stored under it or its bytes are no user's.
pub open spec fn user_lookup(d: SharedData, id: UserKey, found: Option<User>, read: bool) -> bool {
    match found {
        Some(u) => d.user_db.stored(id.key_bytes()) matches Some(b) && decodes_to::<User>(b, u@),
        None => read ==> match d.user_db.stored(id.key_bytes()) {
            Some(b) => !is_record_bytes::<User>(b),
            None => true,
        },
    }
}

/// Whether `found` is what reading the chosen section `id` from `d` gives:
/// the section as stored, when found; when nothing is found and `read` says
/// that no read failed, no section was chosen, none is stored under it, or
/// its bytes are no section's.
pub open spec fn section_lookup(d: SharedData, id: Option<SectionKey>, found: Option<Section>, read: bool) -> bool {
    match found {
        Some(s) => id matches Some(k) && d.section_db.stored(k.key_bytes()) matches Some(b) && decodes_to::<Section>(
            b,
            s@,
        ),
        None => read ==> match id {
            Some(k) => match d.section_db.stored(k.key_bytes()) {
                Some(b) => !is_record_bytes::<Section>(b),
                None => true,
            },
            None => true,
        },
    }
}

/// A row of the list of an organisation's pupils: the pupil, the short name
/// of their award, their chosen sections as found, the styles of the
/// sections' bubbles and how many of the sections are in review.
pub struct ClientRow {
    pub user_id: UserKey,
    pub user: User,
    pub award_name: String,
    pub sections: Vec<Option<Section>>,
    pub styles: Vec<String>,
    pub unreviewed: u32,
}

/// Whether `row` is what `d` gives for its pupil on the list of the
/// organisation's pupils.
pub open spec fn client_row_found(d: SharedData, org_id: OrgKey, row: ClientRow, read: bool) -> bool {
    &&& user_lookup(d, row.user_id, Some(row.user), read)
    &&& match row.user.user_agent {
        UserAgent::Client { org_id: o, award, sections, .. } => {
            &&& o == org_id
            &&& first_key(d.awards@, award@) matches Some(a) && row.award_name@ == d.awards@[a].1.short_name@
            &&& row.sections@.len() == 6
            &&& forall|k: int| 0 <= k < 6 ==> #[trigger] section_lookup(d, sections@[k], row.sections@[k], read)
        },
        _ => false,
    }
    &&& (texts(row.styles@), row.unreviewed as nat) == section_styles_spec(found_states(row.sections@))
}

/// Whether `r` is the row a fetched pupil makes on the list of the
/// organisation's pupils, given the chosen sections as found: a pupil of it
/// whose award is on offer makes a row with the award's short name, the
/// sections, their styles and how many are in review; anyone else none.
pub open spec fn client_row_is(
    r: Option<ClientRow>,
    org_id: OrgKey,
    user_id: UserKey,
    user: User,
    sections: Seq<Option<Section>>,
    awards: Seq<(String, crate::section::AwardInfo)>,
) -> bool {
    match user.user_agent {
        UserAgent::Client { org_id: o, award, .. } => if o == org_id && first_key(awards, award@) is Some {
            &&& r is Some
            &&& r->Some_0.user_id == user_id
            &&& r->Some_0.user == user
            &&& r->Some_0.award_name@ == awards[first_key(awards, award@)->Some_0].1.short_name@
            &&& r->Some_0.sections@ == sections
            &&& (texts(r->Some_0.styles@), r->Some_0.unreviewed as nat) == section_styles_spec(found_states(sections))
        } else {
            r is None
        },
        _ => r is None,
    }
}

/// The row a fetched pupil makes on the list of the organisation's pupils,
/// given their chosen sections as found.
pub fn client_row(
    org_id: OrgKey,
    user_id: UserKey,
    user: User,
    sections: Vec<Option<Section>>,
    awards: &Vec<(String, crate::section::AwardInfo)>,
) -> (r: Option<ClientRow>)
    requires
        sections@.len() <= u32::MAX,
    ensures
        client_row_is(r, org_id, user_id, user, sections@, awards@),
{
    let a = match &user.user_agent {
        UserAgent::Client { org_id: o, award, .. } => {
            if *o != org_id {
                return None;
            }
            match find_key(awards, award.as_str()) {
                Some(a) => a,
                None => return None,
            }
        },
        _ => return None,
    };
    let award_name = awards[a].1.short_name.clone();
    let (styles, unreviewed) = section_styles(&sections);
    Some(ClientRow { user_id, user, award_name, sections, styles, unreviewed })
}

/// The ids of a list of pupils' rows.
pub open spec fn client_ids(rows: Seq<ClientRow>) -> Seq<UserKey> {
    rows.map_values(|r: ClientRow| r.user_id)
}

/// Whether a user is listed as a pupil of the organisation: a pupil of it
/// whose award is on offer.
pub open spec fn listed_client(u: UserView, org_id: OrgKey, awards: Seq<(String, crate::section::AwardInfo)>) -> bool {
    match u.user_agent {
        AgentView::Client { org_id: o, award, .. } => o == org_id && first_key(awards, award) is Some,
        _ => false,
    }
}

/// Whether the user `id` can be shown on the list of the organisation's
/// pupils: their bytes are those of a pupil of it whose award is on offer.
pub open spec fn client_available(d: SharedData, org_id: OrgKey, id: UserKey) -> bool {
    d.user_db.stored(id.key_bytes()) matches Some(b) && exists|u: UserView|
        User::valid_view(u) && #[trigger] record_bytes::<User>(u) == b && listed_client(u, org_id, d.awards@)
}

/// A row of the list of an organisation's teachers: the teacher, and
/// whether the viewer's button to delete them is hidden.
pub struct AssociateRow {
    pub user_id: UserKey,
    pub user: User,
    pub delete_hidden: bool,
}

/// Whether `row` is what `d` gives for its teacher on the list of the
/// organisation's teachers, as `viewer` sees it.
pub open spec fn associate_row_found(d: SharedData, viewer: UserAgent, org_id: OrgKey, row: AssociateRow) -> bool {
    &&& user_lookup(d, row.user_id, Some(row.user), true)
    &&& row.user.user_agent == UserAgent::Associate(org_id)
    &&& row.delete_hidden == !viewer.may_delete_user(&row.user.user_agent)
}

/// The row a fetched user makes on the list of the organisation's teachers
/// as `viewer` sees it: a teacher of it, with the delete button hidden
/// unless the viewer may delete them; nothing for anyone else.
pub open spec fn associate_row_spec(viewer: UserAgent, org_id: OrgKey, user_id: UserKey, fetched: Option<User>) -> Option<AssociateRow> {
    match fetched {
        Some(u) => if u.user_agent == UserAgent::Associate(org_id) {
            Some(AssociateRow { user_id, user: u, delete_hidden: !viewer.may_delete_user(&u.user_agent) })
        } else {
            None
        },
        None => None,
    }
}

/// The row a fetched user makes on the list of the organisation's teachers.
pub fn associate_row(viewer: &UserAgent, org_id: OrgKey, user_id: UserKey, fetched: Option<User>) -> (r: Option<AssociateRow>)
    ensures
        r == associate_row_spec(*viewer, org_id, user_id, fetched),
{
    match fetched {
        Some(user) => {
            let teacher = match &user.user_agent {
                UserAgent::Associate(o) => *o == org_id,
                _ => false,
            };
            if teacher {
                let delete_hidden = !viewer.can_delete_user(&user.user_agent);
                Some(AssociateRow { user_id, user, delete_hidden })
            } else {
                None
            }
        },
        None => None,
    }
}

/// Whether the bytes stored under each listed user, if any, are a user's.
pub open spec fn users_readable(d: SharedData, ids: Seq<UserKey>) -> bool {
    forall|i: int|
        0 <= i < ids.len() ==> (#[trigger] d.user_db.stored(ids[i].key_bytes()) matches Some(b) ==> is_record_bytes::<User>(b))
}

/// The ids of a list of rows.
pub open spec fn associate_ids(rows: Seq<AssociateRow>) -> Seq<UserKey> {
    rows.map_values(|r: AssociateRow| r.user_id)
}

/// Whether the user `id` can be shown on the list of the organisation's
/// teachers: their bytes are those of a teacher of it.
pub open spec fn associate_available(d: SharedData, org_id: OrgKey, id: UserKey) -> bool {
    d.user_db.stored(id.key_bytes()) matches Some(b) && exists|u: UserView|
        User::valid_view(u) && #[trigger] record_bytes::<User>(u) == b && u.user_agent == AgentView::Associate(org_id)
}

/// A row found while every read succeeded is still found when a later read
/// failed.
proof fn lemma_client_row_weaken(d: SharedData, org_id: OrgKey, row: ClientRow)
    requires
        client_row_found(d, org_id, row, true),
    ensures
        client_row_found(d, org_id, row, false),
{
    if let UserAgent::Client { sections, .. } = row.user.user_agent {
        assert forall|k: int| 0 <= k < 6 implies #[trigger] section_lookup(d, sections@[k], row.sections@[k], false) by {
            assert(section_lookup(d, sections@[k], row.sections@[k], true));
        }
    }
}

impl SharedData {
    /// Reads a user, and tells whether the read succeeded.
    pub(crate) fn user_of(&self, id: UserKey) -> (res: (Option<User>, bool))
        ensures
            user_lookup(*self, id, res.0, res.1),
            res.0 matches Some(u) ==> forall|r: UserView|
                User::valid_view(r) && #[trigger] record_bytes::<User>(r) == self.user_db.stored(id.key_bytes())->Some_0
                    ==> r == u@,
    {
        read_outcome(self.user_db.fetch(&id))
    }

    /// Reads a user, recording a failure of the store, and tells whether the
    /// read succeeded.
    pub(crate) fn user_of_noting(&mut self, id: UserKey) -> (res: (Option<User>, bool))
        ensures
            user_lookup(*old(self), id, res.0, res.1),
            res.0 matches Some(u) ==> forall|r: UserView|
                User::valid_view(r) && #[trigger] record_bytes::<User>(r) == old(self).user_db.stored(id.key_bytes())->Some_0
                    ==> r == u@,
            final(self).user_db.contents() == old(self).user_db.contents(),
            final(self).user_db.failures() == old(self).user_db.failures() + if res.1 {
                0nat
            } else {
                1nat
            },
            final(self).login_db == old(self).login_db,
            final(self).org_db == old(self).org_db,
            final(self).section_db == old(self).section_db,
            final(self).auth_manager == old(self).auth_manager,
            final(self).link_manager == old(self).link_manager,
            final(self).awards == old(self).awards,
            final(self).fs_root == old(self).fs_root,
    {
        let read = self.user_db.fetch(&id);
        if let Err(StoreError::DbError(e)) = &read {
            self.user_db.note_failure(e);
        }
        read_outcome(read)
    }

    /// The sections a pupil chose, as read from the store, and whether no
    /// read failed.
    pub fn chosen_sections(&self, ids: &[Option<SectionKey>; 6]) -> (res: (Vec<Option<Section>>, bool))
        ensures
            res.0@.len() == 6,
            forall|i: int| 0 <= i < 6 ==> #[trigger] section_lookup(*self, ids@[i], res.0@[i], res.1),
            !res.1 ==> exists|i: int| 0 <= i < 6 && #[trigger] ids@[i] is Some,
    {
        let mut found: Vec<Option<Section>> = Vec::new();
        let mut read = true;
        let mut i: usize = 0;
        while i < 6
            invariant
                i <= 6,
                ids@.len() == 6,
                found@.len() == i,
                forall|q: int| 0 <= q < i ==> #[trigger] section_lookup(*self, ids@[q], found@[q], read),
                !read ==> exists|q: int| 0 <= q < i && #[trigger] ids@[q] is Some,
            decreases 6 - i,
        {
            let ghost before = found@;
            let ghost was_read = read;
            let f = match ids[i] {
                Some(k) => {
                    let (f, answered) = read_outcome(self.section_db.fetch(&k));
                    if !answered {
                        read = false;
                    }
                    proof {
                        assert(ids@[i as int] is Some);
                    }
                    f
                },
                None => None,
            };
            found.push(f);
            proof {
                assert forall|q: int| 0 <= q < i + 1 implies #[trigger] section_lookup(*self, ids@[q], found@[q], read) by {
                    if q < i {
                        assert(found@[q] == before[q]);
                        assert(section_lookup(*self, ids@[q], before[q], was_read));
                    }
                }
            }
            i = i + 1;
        }
        (found, read)
    }

    /// The row of one listed user on the list of the organisation's pupils,
    /// if they are shown there, and whether no read failed.
    fn client_row_of(&self, org_id: OrgKey, user_id: UserKey) -> (res: (Option<ClientRow>, bool))
        ensures
            res.0 matches Some(r) ==> r.user_id == user_id && client_row_found(*self, org_id, r, res.1),
            res.1 && res.0 is None ==> !client_available(*self, org_id, user_id),
            res.1 && users_readable(*self, seq![user_id]) && client_available(*self, org_id, user_id) ==> res.0 is Some,
            users_readable(*self, seq![user_id]) && res.0 is Some ==> client_available(*self, org_id, user_id),
    {
        let (found, read) = self.user_of(user_id);
        proof {
            if users_readable(*self, seq![user_id]) && self.user_db.stored(user_id.key_bytes()) is Some {
                assert(seq![user_id][0] == user_id);
                let b = self.user_db.stored(user_id.key_bytes())->Some_0;
                assert(is_record_bytes::<User>(b));
            }
        }
        let user = match found {
            Some(u) => u,
            None => return (None, read),
        };
        let ids = match &user.user_agent {
            UserAgent::Client { org_id: o, sections, .. } => {
                if *o != org_id {
                    return (None, true);
                }
                *sections
            },
            _ => return (None, true),
        };
        let (sections, sections_read) = self.chosen_sections(&ids);
        let row = client_row(org_id, user_id, user, sections, &self.awards);
        match row {
            Some(row) => {
                proof {
                    if let UserAgent::Client { sections: chosen, .. } = row.user.user_agent {
                        assert(chosen@ == ids@);
                        assert forall|k: int| 0 <= k < 6 implies #[trigger] section_lookup(
                            *self,
                            chosen@[k],
                            row.sections@[k],
                            sections_read,
                        ) by {
                            assert(section_lookup(*self, ids@[k], row.sections@[k], sections_read));
                        }
                    }
                }
                (Some(row), sections_read)
            },
            None => (None, true),
        }
    }

    /// The rows of the list of an organisation's pupils, for the listed
    /// users who are pupils of it with an award on offer; and whether no
    /// read failed, in which case no such pupil is
    /// left out and every chosen section that is stored as one was found.
    pub fn client_rows(&self, org_id: OrgKey, ids: &Vec<UserKey>) -> (res: (Vec<ClientRow>, bool))
        ensures
            res.0@.len() <= ids@.len(),
            !res.1 ==> ids@.len() > 0,
            forall|i: int| 0 <= i < res.0@.len() ==> #[trigger] client_row_found(*self, org_id, res.0@[i], res.1),
            forall|i: int| 0 <= i < res.0@.len() ==> ids@.contains(#[trigger] res.0@[i].user_id),
            res.1 ==> forall|i: int|
                0 <= i < ids@.len() && #[trigger] client_available(*self, org_id, ids@[i]) ==> exists|j: int|
                    0 <= j < res.0@.len() && res.0@[j].user_id == ids@[i],
            res.1 && users_readable(*self, ids@) ==> client_ids(res.0@) == ids@.filter(
                |k: UserKey| client_available(*self, org_id, k),
            ),
    {
        let ghost pred = |k: UserKey| client_available(*self, org_id, k);
        let mut rows: Vec<ClientRow> = Vec::new();
        let mut complete = true;
        let mut i: usize = 0;
        let ghost mut shown: Seq<UserKey> = Seq::empty();
        while i < ids.len()
            invariant
                i <= ids@.len(),
                rows@.len() <= i,
                complete || i > 0,
                shown.len() == rows@.len(),
                forall|q: int| 0 <= q < rows@.len() ==> shown[q] == #[trigger] rows@[q].user_id,
                forall|q: int| 0 <= q < rows@.len() ==> #[trigger] client_row_found(*self, org_id, rows@[q], complete),
                forall|q: int| 0 <= q < rows@.len() ==> ids@.contains(#[trigger] rows@[q].user_id),
                complete ==> forall|q: int|
                    0 <= q < i && #[trigger] client_available(*self, org_id, ids@[q]) ==> shown.contains(ids@[q]),
                pred == (|k: UserKey| client_available(*self, org_id, k)),
                complete && users_readable(*self, ids@) ==> shown == ids@.take(i as int).filter(pred),
            decreases ids@.len() - i,
        {
            let user_id = ids[i];
            proof {
                if users_readable(*self, ids@) {
                    assert forall|q: int| 0 <= q < seq![user_id].len() implies (#[trigger] self.user_db.stored(
                        seq![user_id][q].key_bytes(),
                    ) matches Some(b) ==> is_record_bytes::<User>(b)) by {
                        assert(seq![user_id][q] == ids@[i as int]);
                    }
                }
                assert(ids@.take(i + 1) =~= ids@.take(i as int).push(user_id));
                ids@.take(i as int).lemma_filter_push(user_id, pred);
            }
            let (row, read) = self.client_row_of(org_id, user_id);
            let ghost before = rows@;
            let ghost was_complete = complete;
            if !read {
                complete = false;
            }
            proof {
                assert forall|q: int| 0 <= q < before.len() implies #[trigger] client_row_found(
                    *self,
                    org_id,
                    before[q],
                    complete,
                ) by {
                    assert(client_row_found(*self, org_id, before[q], was_complete));
                    if was_complete && !complete {
                        lemma_client_row_weaken(*self, org_id, before[q]);
                    }
                }
            }
            match row {
                Some(row) => {
                    proof {
                        assert(ids@[i as int] == row.user_id);
                        assert(ids@.contains(row.user_id));
                        if read && !complete {
                            lemma_client_row_weaken(*self, org_id, row);
                        }
                        assert forall|q: int| 0 <= q < i + 1 && shown.contains(ids@[q]) || q == i implies #[trigger] shown.push(
                            user_id,
                        ).contains(ids@[q]) by {
                            if q == i {
                                assert(shown.push(user_id)[shown.len() as int] == ids@[q]);
                            } else {
                                let j = choose|j: int| 0 <= j < shown.len() && shown[j] == ids@[q];
                                assert(shown.push(user_id)[j] == ids@[q]);
                            }
                        }
                        shown = shown.push(user_id);
                    }
                    rows.push(row);
                    proof {
                        assert forall|q: int| 0 <= q < rows@.len() implies #[trigger] client_row_found(
                            *self,
                            org_id,
                            rows@[q],
                            complete,
                        ) by {
                            if q < before.len() {
                                assert(rows@[q] == before[q]);
                            }
                        }
                    }
                },
                None => {},
            }
            i = i + 1;
        }
        let res = (rows, complete);
        proof {
            assert(ids@.take(ids@.len() as int) =~= ids@);
            assert(client_ids(res.0@) =~= shown);
            assert forall|q: int| res.1 && 0 <= q < ids@.len() && #[trigger] client_available(*self, org_id, ids@[q]) implies exists|j: int|
                0 <= j < res.0@.len() && res.0@[j].user_id == ids@[q] by {
                let j = choose|j: int| 0 <= j < shown.len() && shown[j] == ids@[q];
                assert(res.0@[j].user_id == shown[j]);
            }
        }
        res
    }

    /// The row of one listed user on the list of the organisation's
    /// teachers, if they are shown there, and whether no read failed.
    fn associate_row_of(&self, viewer: &UserAgent, org_id: OrgKey, user_id: UserKey) -> (res: (Option<AssociateRow>, bool))
        ensures
            res.0 matches Some(r) ==> r.user_id == user_id && associate_row_found(*self, *viewer, org_id, r),
            res.1 && res.0 is None ==> !associate_available(*self, org_id, user_id),
            res.1 && users_readable(*self, seq![user_id]) && associate_available(*self, org_id, user_id) ==> res.0 is Some,
            users_readable(*self, seq![user_id]) && res.0 is Some ==> associate_available(*self, org_id, user_id),
    {
        let (found, read) = self.user_of(user_id);
        proof {
            if read && users_readable(*self, seq![user_id]) && associate_available(*self, org_id, user_id) {
                assert(seq![user_id][0] == user_id);
                let u = choose|u: UserView|
                    User::valid_view(u) && #[trigger] record_bytes::<User>(u) == self.user_db.stored(user_id.key_bytes())->Some_0
                        && u.user_agent == AgentView::Associate(org_id);
            }
            if users_readable(*self, seq![user_id]) && found is Some {
                assert(seq![user_id][0] == user_id);
                let b = self.user_db.stored(user_id.key_bytes())->Some_0;
                let r = choose|r: UserView| User::valid_view(r) && #[trigger] record_bytes::<User>(r) == b;
                assert(r == found->Some_0@);
            }
        }
        (associate_row(viewer, org_id, user_id, found), read)
    }

    /// The rows of the list of an organisation's teachers as `viewer` sees
    /// it, for the listed users who are teachers of it;
    /// and whether no read failed, in which case no such teacher is left out.
    pub fn associate_rows(&self, viewer: &UserAgent, org_id: OrgKey, ids: &Vec<UserKey>) -> (res: (Vec<AssociateRow>, bool))
        ensures
            res.0@.len() <= ids@.len(),
            !res.1 ==> ids@.len() > 0,
            forall|i: int| 0 <= i < res.0@.len() ==> #[trigger] associate_row_found(*self, *viewer, org_id, res.0@[i]),
            forall|i: int| 0 <= i < res.0@.len() ==> ids@.contains(#[trigger] res.0@[i].user_id),
            res.1 ==> forall|i: int|
                0 <= i < ids@.len() && #[trigger] associate_available(*self, org_id, ids@[i]) ==> exists|j: int|
                    0 <= j < res.0@.len() && res.0@[j].user_id == ids@[i],
            res.1 && users_readable(*self, ids@) ==> associate_ids(res.0@) == ids@.filter(
                |k: UserKey| associate_available(*self, org_id, k),
            ),
    {
        let ghost pred = |k: UserKey| associate_available(*self, org_id, k);
        let mut rows: Vec<AssociateRow> = Vec::new();
        let mut complete = true;
        let mut i: usize = 0;
        let ghost mut shown: Seq<UserKey> = Seq::empty();
        while i < ids.len()
            invariant
                i <= ids@.len(),
                rows@.len() <= i,
                complete || i > 0,
                shown.len() == rows@.len(),
                forall|q: int| 0 <= q < rows@.len() ==> shown[q] == #[trigger] rows@[q].user_id,
                forall|q: int| 0 <= q < rows@.len() ==> #[trigger] associate_row_found(*self, *viewer, org_id, rows@[q]),
                forall|q: int| 0 <= q < rows@.len() ==> ids@.contains(#[trigger] rows@[q].user_id),
                complete ==> forall|q: int|
                    0 <= q < i && #[trigger] associate_available(*self, org_id, ids@[q]) ==> shown.contains(ids@[q]),
                pred == (|k: UserKey| associate_available(*self, org_id, k)),
                complete && users_readable(*self, ids@) ==> shown == ids@.take(i as int).filter(pred),
            decreases ids@.len() - i,
        {
            let user_id = ids[i];
            proof {
                if users_readable(*self, ids@) {
                    assert forall|q: int| 0 <= q < seq![user_id].len() implies (#[trigger] self.user_db.stored(
                        seq![user_id][q].key_bytes(),
                    ) matches Some(b) ==> is_record_bytes::<User>(b)) by {
                        assert(seq![user_id][q] == ids@[i as int]);
                    }
                }
                assert(ids@.take(i + 1) =~= ids@.take(i as int).push(user_id));
                ids@.take(i as int).lemma_filter_push(user_id, pred);
            }
            let (row, read) = self.associate_row_of(viewer, org_id, user_id);
            if !read {
                complete = false;
            }
            match row {
                Some(row) => {
                    proof {
                        assert(ids@[i as int] == row.user_id);
                        assert(ids@.contains(row.user_id));
                        assert forall|q: int| 0 <= q < i + 1 && shown.contains(ids@[q]) || q == i implies #[trigger] shown.push(
                            user_id,
                        ).contains(ids@[q]) by {
                            if q == i {
                                assert(shown.push(user_id)[shown.len() as int] == ids@[q]);
                            } else {
                                let j = choose|j: int| 0 <= j < shown.len() && shown[j] == ids@[q];
                                assert(shown.push(user_id)[j] == ids@[q]);
                            }
                        }
                        shown = shown.push(user_id);
                    }
                    rows.push(row);
                },
                None => {},
            }
            i = i + 1;
        }
        let res = (rows, complete);
        proof {
            assert(ids@.take(ids@.len() as int) =~= ids@);
            assert(associate_ids(res.0@) =~= shown);
            assert forall|q: int| res.1 && 0 <= q < ids@.len() && #[trigger] associate_available(*self, org_id, ids@[q]) implies exists|j: int|
                0 <= j < res.0@.len() && res.0@[j].user_id == ids@[q] by {
                let j = choose|j: int| 0 <= j < shown.len() && shown[j] == ids@[q];
                assert(res.0@[j].user_id == shown[j]);
            }
        }
        res
    }
}

} // verus!
