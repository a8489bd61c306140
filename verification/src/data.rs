use vstd::prelude::*;
use vstd::utf8::encode_utf8;
use crate::auth::{AuthContext, AuthManager, AuthSession, law_started_session_lifetime, session_bytes};
use crate::codec::{Record, decodes_to, is_record_bytes, read_value, record_bytes};
use crate::db::{entries_read, value_read_as, StoreError, StoreKey, fetched, read_outcome};
use crate::dir;
use crate::forms::CreateAccountForm;
use crate::keys::{AuthToken, LinkToken, OrgKey, SectionKey, UserKey, be_bytes, is_random_uuid, uuid_parse, uuid_text};
use crate::link::{Link, LinkEntry, LinkEntryView, LinkManager, LinkView, link_bytes, link_live_at, link_made_at};
use crate::login::{self, AuthError, LoginDb, LoginEntry, LoginEntryError, LoginEntryView, authenticated, login_bytes};
use crate::org::{Org, OrgDb, OrgView, lemma_without_absent, law_admit_then_release_client, other_than, with_associate, with_client, without_associate, without_client};
use crate::section::{AwardInfo, Section, activity_of, find_key, first_key};
use crate::section_store::{SectionDb, SectionStateView, SectionView};
use crate::time::MAX_INSTANT;
use crate::user::{AgentView, User, UserAgent, UserDb, UserView};

verus! {

/// Everything the portal keeps: the logins, users, organisations and
/// sections, the awards on offer, the links sent out and the sessions.
pub struct SharedData {
    pub fs_root: String,
    pub login_db: LoginDb,
    pub user_db: UserDb,
    pub org_db: OrgDb,
    pub section_db: SectionDb,
    pub awards: Vec<(String, AwardInfo)>,
    pub link_manager: LinkManager,
    pub auth_manager: AuthManager,
}

/// The organisation a kind of user belongs to as a pupil or teacher.
pub open spec fn member_org(a: AgentView) -> Option<OrgKey> {
    match a {
        AgentView::Client { org_id, .. } => Some(org_id),
        AgentView::Associate(org_id) => Some(org_id),
        _ => None,
    }
}

/// The organisation once a user of kind `a` has joined it.
pub open spec fn joined(o: OrgView, a: AgentView, u: UserKey) -> OrgView {
    match a {
        AgentView::Client { .. } => with_client(o, u),
        _ => with_associate(o, u),
    }
}

/// Whether a user of kind `a` can join the organisation: a pupil not yet
/// in it while a credit is left, a teacher not yet in it.
pub open spec fn may_join(o: OrgView, a: AgentView, u: UserKey) -> bool {
    match a {
        AgentView::Client { .. } => !o.clients.contains(u) && o.credits > 0,
        _ => !o.associates.contains(u),
    }
}

/// The organisation once a user of kind `a` has left it.
pub open spec fn left(o: OrgView, a: AgentView, u: UserKey) -> OrgView {
    match a {
        AgentView::Client { .. } => without_client(o, u),
        _ => without_associate(o, u),
    }
}

/// Whether a user of kind `a` leaving the organisation is recorded: a
/// pupil's credit comes back only while the credits are below their limit.
pub open spec fn may_leave(o: OrgView, a: AgentView) -> bool {
    match a {
        AgentView::Client { .. } => o.credits < u32::MAX,
        _ => true,
    }
}

/// The organisations' records `after` once a user of kind `a` joined its
/// organisation in `before`: a user of no organisation, or of one not
/// stored, changes nothing; else the organisation's record, when it is one,
/// becomes that of the organisation joined when the user may join it, and
/// stays as it was when not.
pub open spec fn join_outcome(before: Map<Seq<u8>, Seq<u8>>, after: Map<Seq<u8>, Seq<u8>>, a: AgentView, u: UserKey) -> bool {
    match member_org(a) {
        None => after == before,
        Some(k) => if !before.contains_key(k.key_bytes()) {
            after == before
        } else {
            forall|o: OrgView|
                Org::valid_view(o) && before[k.key_bytes()] == #[trigger] record_bytes::<Org>(o) ==> if may_join(o, a, u) {
                    after == before.insert(k.key_bytes(), record_bytes::<Org>(joined(o, a, u)))
                } else {
                    after == before
                }
        },
    }
}

/// The organisations' records `after` once a user of kind `a` left its
/// organisation in `before`: a user of no organisation, or of one not
/// stored, changes nothing; else the organisation's record, when it is one,
/// becomes that of the organisation left when that is recorded, and stays
/// as it was when not.
pub open spec fn leave_outcome(before: Map<Seq<u8>, Seq<u8>>, after: Map<Seq<u8>, Seq<u8>>, a: AgentView, u: UserKey) -> bool {
    match member_org(a) {
        None => after == before,
        Some(k) => if !before.contains_key(k.key_bytes()) {
            after == before
        } else {
            forall|o: OrgView|
                Org::valid_view(o) && before[k.key_bytes()] == #[trigger] record_bytes::<Org>(o) ==> if may_leave(o, a) {
                    after == before.insert(k.key_bytes(), record_bytes::<Org>(left(o, a, u)))
                } else {
                    after == before
                }
        },
    }
}

/// The login entry of a new account.
pub open spec fn new_login(password: Seq<char>, user_id: UserKey, default_password: bool) -> LoginEntryView {
    LoginEntryView { password, user_id, default_password }
}

/// Whether `after` is `before` once an account for `user` was created
/// under the fresh key `id`, with the password: the user stored under the
/// key, and a login under the user's email, which no login had.
pub open spec fn registered(
    before: SharedData,
    after: SharedData,
    user: UserView,
    password: Seq<char>,
    default_password: bool,
    id: UserKey,
) -> bool {
    &&& is_random_uuid(id.0)
    &&& !before.login_db.logins().contains_key(encode_utf8(user.email))
    &&& after.user_db.contents() == before.user_db.contents().insert(id.key_bytes(), record_bytes::<User>(user))
    &&& after.login_db.logins() == before.login_db.logins().insert(
        encode_utf8(user.email),
        login_bytes(new_login(password, id, default_password)),
    )
}

/// What logging in with the user name and password in `before` gives: on
/// success the login's user, found as stored, with a new session of
/// `timeout` nanoseconds started at some instant; `NoUser` when no login is
/// stored under the name or its user is not stored; `IncorrectPassword`
/// when the login holds another password; a database error only when the
/// store reported one, or when the login's bytes or its user's bytes cannot
/// be read.
pub open spec fn login_outcome(
    before: SharedData,
    after: SharedData,
    username: Seq<char>,
    password: Seq<char>,
    timeout: u128,
    res: Result<AuthContext, AuthError>,
) -> bool {
    match res {
        Ok(ctx) => authenticated(before.login_db.stored_text(username), password, Ok::<UserKey, AuthError>(ctx.user_id))
            && fetched(before.user_db.stored(ctx.user_id.key_bytes()), Ok::<Option<User>, StoreError>(Some(ctx.user)))
            && is_random_uuid(ctx.auth_token.0) && exists|now: u128|
            now < MAX_INSTANT && #[trigger] after.auth_manager.sessions() == before.auth_manager.sessions().insert(
                ctx.auth_token.key_bytes(),
                session_bytes(AuthSession::started_at(ctx.user_id, now, timeout)),
            ),
        Err(AuthError::NoUser) => authenticated(before.login_db.stored_text(username), password, Err(AuthError::NoUser))
            || exists|u: UserKey|
            #[trigger] authenticated(before.login_db.stored_text(username), password, Ok::<UserKey, AuthError>(u))
                && before.user_db.stored(u.key_bytes()) is None,
        Err(AuthError::IncorrectPassword) => authenticated(
            before.login_db.stored_text(username),
            password,
            Err(AuthError::IncorrectPassword),
        ),
        Err(AuthError::DbError(e)) => e is DbError || authenticated(
            before.login_db.stored_text(username),
            password,
            Err(AuthError::DbError(e)),
        ) || exists|u: UserKey|
            #[trigger] authenticated(before.login_db.stored_text(username), password, Ok::<UserKey, AuthError>(u))
                && fetched(before.user_db.stored(u.key_bytes()), Err::<Option<User>, StoreError>(e)),
    }
}

/// Why a pupil's activity could not be chosen.
#[derive(Debug)]
pub enum SelectActivityError {
    /// There is no section at that index.
    InvalidSection,
    /// The user is not a pupil.
    NotAClient,
    /// The pupil's award is not on offer.
    UnknownAward,
    /// The section has no activity at that index.
    InvalidActivity,
    /// The new section could not be stored.
    DbError(StoreError),
}

/// The key of the activity at `activity_index` of the section at
/// `section_index` of the award under `award`, if there is one.
pub open spec fn chosen_activity(
    awards: Seq<(String, AwardInfo)>,
    award: Seq<char>,
    section_index: int,
    activity_index: int,
) -> Option<Seq<char>> {
    match first_key(awards, award) {
        Some(a) => if 0 <= section_index < 6 && 0 <= activity_index < awards[a].1.sections@[section_index].activities@.len() {
            Some(awards[a].1.sections@[section_index].activities@[activity_index].0@)
        } else {
            None
        },
        None => None,
    }
}

/// A section just begun: no plan, reflection or answers, in progress.
pub open spec fn fresh_section(section_index: usize, award: Seq<char>, activity: Seq<char>, user_id: UserKey) -> SectionView {
    SectionView {
        section_index,
        award,
        activity,
        user_id,
        plan: Seq::empty(),
        reflection: Seq::empty(),
        input_data: Seq::empty(),
        state: SectionStateView::InProgress,
        outstanding: false,
    }
}

/// Why following a link failed.
#[derive(Debug)]
pub enum LinkActionError {
    /// The link is unknown, expired, or not of the kind needed.
    BadLink,
    /// The user of the link is not stored.
    NoUser,
    /// The password could not be changed.
    Login(AuthError),
    /// The account could not be created.
    Register(LoginEntryError),
    /// The links could not be read.
    DbError(StoreError),
}

/// Whether bytes are stored under the key `k` of `c` that cannot be read as
/// a value of the type.
pub open spec fn unreadable<V: Record>(c: Map<Seq<u8>, Seq<u8>>, k: Seq<u8>) -> bool {
    c.contains_key(k) && read_value::<V>(c[k]) is None
}

/// Whether the link stored under `token` in `links` reads as a password
/// link for the user `k`.
pub open spec fn password_link_for(links: Map<Seq<u8>, Seq<u8>>, token: LinkToken, k: UserKey) -> bool {
    links.contains_key(token.key_bytes()) && exists|l: LinkEntryView|
        read_value::<LinkEntry>(links[token.key_bytes()]) == Some(l) && #[trigger] password_link_user(l) == Some(k)
}

/// Whether the organisations' records `after` are those `before`, the same
/// keys holding the same bytes, but for the record of the organisation
/// `org`, if any.
pub open spec fn org_changed_at_most(before: Map<Seq<u8>, Seq<u8>>, after: Map<Seq<u8>, Seq<u8>>, org: Option<OrgKey>) -> bool {
    &&& after.dom() == before.dom()
    &&& forall|k: Seq<u8>|
        #[trigger] after.contains_key(k) && !(org matches Some(o) && o.key_bytes() == k) ==> after[k] == before[k]
}

/// What deleting the user `user_id` from `before` leaves: unless the store
/// fails, the user is gone; and when no user was stored under the key, the
/// deletion succeeds unless the store fails, and then changes no login or
/// organisation.
pub open spec fn user_deletion(before: SharedData, after: SharedData, user_id: UserKey, res: Result<(), StoreError>) -> bool {
    &&& !(res matches Err(StoreError::DbError(_))) ==> after.user_db.contents() == before.user_db.contents().remove(
        user_id.key_bytes(),
    )
    &&& before.user_db.stored(user_id.key_bytes()) is None ==> (res is Ok || res matches Err(StoreError::DbError(_)))
    &&& before.user_db.stored(user_id.key_bytes()) is None && res is Ok ==> after.login_db == before.login_db
        && after.org_db == before.org_db
}

/// Deleting a user again after a deletion that succeeded finds nothing to
/// delete: it succeeds, unless the store fails, and changes no user, login
/// or organisation.
pub proof fn law_delete_user_twice(
    d0: SharedData,
    d1: SharedData,
    d2: SharedData,
    user_id: UserKey,
    r1: Result<(), StoreError>,
    r2: Result<(), StoreError>,
)
    requires
        user_deletion(d0, d1, user_id, r1),
        r1 is Ok,
        user_deletion(d1, d2, user_id, r2),
    ensures
        r2 is Ok || r2 matches Err(StoreError::DbError(_)),
        r2 is Ok ==> d2.user_db.contents() == d1.user_db.contents() && d2.login_db == d1.login_db && d2.org_db
            == d1.org_db,
{
    assert(d1.user_db.stored(user_id.key_bytes()) is None);
    if r2 is Ok {
        assert(d1.user_db.contents().remove(user_id.key_bytes()) =~= d1.user_db.contents());
    }
}

/// Whether a user is stored under `k` in `c` and reads as `u`.
pub open spec fn user_read_as(c: Map<Seq<u8>, Seq<u8>>, k: UserKey, u: UserView) -> bool {
    c.contains_key(k.key_bytes()) && read_value::<User>(c[k.key_bytes()]) == Some(u)
}

/// Whether a link is stored under `token` in `links` and reads as `e`.
pub open spec fn link_stored(links: Map<Seq<u8>, Seq<u8>>, token: LinkToken, e: LinkEntryView) -> bool {
    links.contains_key(token.key_bytes()) && decodes_to::<LinkEntry>(links[token.key_bytes()], e)
}

/// A row of a list of sections: the section, its pupil, and the names of
/// its award, section and activity.
pub struct SectionRow {
    pub section_id: SectionKey,
    pub section: Section,
    pub user: User,
    pub award_name: String,
    pub section_name: String,
    pub activity_name: String,
}

/// Whether the bytes under `k` are stored and read as a section marked
/// outstanding.
pub open spec fn outstanding_at(c: Map<Seq<u8>, Seq<u8>>, k: Seq<u8>) -> bool {
    c.contains_key(k) && exists|s: SectionView| #[trigger] decodes_to::<Section>(c[k], s) && s.outstanding
}

/// Whether the bytes under `k` are those of a section marked outstanding.
pub open spec fn stored_outstanding(c: Map<Seq<u8>, Seq<u8>>, k: Seq<u8>) -> bool {
    c.contains_key(k) && exists|s: SectionView|
        Section::valid_view(s) && #[trigger] record_bytes::<Section>(s) == c[k] && s.outstanding
}

/// Whether `row` is what the stores of `d` and the awards give for its
/// section: the section and its pupil as stored, and the names of the
/// section's award, section and activity.
pub open spec fn row_found(d: SharedData, row: SectionRow) -> bool {
    &&& d.section_db.stored(row.section_id.key_bytes()) is Some
    &&& decodes_to::<Section>(d.section_db.stored(row.section_id.key_bytes())->Some_0, row.section@)
    &&& d.user_db.stored(row.section.user_id.key_bytes()) is Some
    &&& decodes_to::<User>(d.user_db.stored(row.section.user_id.key_bytes())->Some_0, row.user@)
    &&& first_key(d.awards@, row.section.award@) matches Some(a) && row.section.section_index < 6
        && row.award_name@ == d.awards@[a].1.name@
        && row.section_name@ == d.awards@[a].1.sections@[row.section.section_index as int].name@
    &&& activity_of(&row.section, d.awards@) matches Some(act) && row.activity_name@ == act.name@
}

/// Whether `r` is the row a fetched section and its fetched pupil make on a
/// list of sections: when its award, section and activity are on offer, the
/// section and pupil with the names of its award, section and activity;
/// else none.
pub open spec fn section_row_is(
    r: Option<SectionRow>,
    section_id: SectionKey,
    section: Section,
    user: User,
    awards: Seq<(String, AwardInfo)>,
) -> bool {
    if first_key(awards, section.award@) is Some && section.section_index < 6 && activity_of(&section, awards) is Some {
        let a = first_key(awards, section.award@)->Some_0;
        &&& r is Some
        &&& r->Some_0.section_id == section_id
        &&& r->Some_0.section == section
        &&& r->Some_0.user == user
        &&& r->Some_0.award_name@ == awards[a].1.name@
        &&& r->Some_0.section_name@ == awards[a].1.sections@[section.section_index as int].name@
        &&& r->Some_0.activity_name@ == activity_of(&section, awards)->Some_0.name@
    } else {
        r is None
    }
}

/// The row a fetched section and its fetched pupil make on a list of
/// sections.
pub fn section_row(section_id: SectionKey, section: Section, user: User, awards: &Vec<(String, AwardInfo)>) -> (r: Option<SectionRow>)
    ensures
        section_row_is(r, section_id, section, user, awards@),
{
    let a = match find_key(awards, section.award.as_str()) {
        Some(a) => a,
        None => return None,
    };
    if section.section_index >= 6 {
        return None;
    }
    let activity_name = match section.get_activity(awards) {
        Some(activity) => activity.name.clone(),
        None => return None,
    };
    let award_name = awards[a].1.name.clone();
    let section_name = awards[a].1.sections[section.section_index].name.clone();
    Some(SectionRow { section_id, section, user, award_name, section_name, activity_name })
}

/// Whether the bytes stored under each listed section, if any, are a
/// section's, and those stored under its pupil, if any, a user's.
pub open spec fn sections_readable(d: SharedData, ids: Seq<SectionKey>) -> bool {
    forall|i: int|
        0 <= i < ids.len() ==> (#[trigger] d.section_db.stored(ids[i].key_bytes()) matches Some(b) ==> is_record_bytes::<
            Section,
        >(b) && forall|s: SectionView|
            Section::valid_view(s) && #[trigger] record_bytes::<Section>(s) == b ==> (d.user_db.stored(
                s.user_id.key_bytes(),
            ) matches Some(ub) ==> is_record_bytes::<User>(ub)))
}

/// The ids of a list of rows of sections.
pub open spec fn section_ids(rows: Seq<SectionRow>) -> Seq<SectionKey> {
    rows.map_values(|r: SectionRow| r.section_id)
}

/// Whether the listed section can be shown: its bytes are a section's,
/// those of its pupil a user's, and some row is what the stores and the
/// awards give for it.
pub open spec fn row_available(d: SharedData, id: SectionKey) -> bool {
    exists|r: SectionRow|
        r.section_id == id && #[trigger] row_found(d, r) && is_record_bytes::<Section>(
            d.section_db.stored(id.key_bytes())->Some_0,
        ) && is_record_bytes::<User>(d.user_db.stored(r.section.user_id.key_bytes())->Some_0)
}

/// The user a password link is for, if it is one.
pub open spec fn password_link_user(e: LinkEntryView) -> Option<UserKey> {
    match e.link {
        LinkView::ChangePassword(u) => Some(u),
        _ => None,
    }
}

/// Whether following the link under `token` is refused: no link is stored
/// under it, or the link stored is of the other kind (a password link when
/// `password` holds, else an account link) or had expired at some instant.
pub open spec fn link_refused(links: Map<Seq<u8>, Seq<u8>>, token: LinkToken, password: bool) -> bool {
    !links.contains_key(token.key_bytes()) || forall|e: LinkEntryView|
        LinkEntry::valid_view(e) && links[token.key_bytes()] == #[trigger] link_bytes(e) ==> ((if password {
            !(e.link is ChangePassword)
        } else {
            !(e.link is CreateUser)
        }) || exists|now: u128| now < MAX_INSTANT && !#[trigger] link_live_at(e, now))
}

/// Whether `after` is `before` once the password link under `token` was
/// followed with `password`: the link names a stored user, whose login now
/// holds the password, marked as chosen by the user.
pub open spec fn password_link_followed(before: SharedData, after: SharedData, token: LinkToken, password: Seq<char>) -> bool {
    exists|e: LinkEntryView, u: UserView, l: LoginEntryView|
        #[trigger] link_stored(before.link_manager.links(), token, e) && #[trigger] login::read_as(
            before.login_db.stored_text(u.email)->Some_0,
            l,
        ) && match e.link {
            LinkView::ChangePassword(user_id) => {
                &&& before.user_db.stored(user_id.key_bytes()) is Some
                &&& decodes_to::<User>(before.user_db.stored(user_id.key_bytes())->Some_0, u)
                &&& before.login_db.stored_text(u.email) is Some
                &&& after.login_db.logins() == before.login_db.logins().insert(
                    encode_utf8(u.email),
                    login_bytes(LoginEntryView { password, default_password: false, ..l }),
                )
            },
            _ => false,
        }
}

/// Whether `after` is `before` once the account link under `token` was
/// followed with the form: the link names a kind of user, and an account of
/// that kind for the form's person was created under `id`, with the form's
/// password.
pub open spec fn account_link_followed(before: SharedData, after: SharedData, token: LinkToken, form: CreateAccountForm, id: UserKey) -> bool {
    exists|e: LinkEntryView|
        #[trigger] link_stored(before.link_manager.links(), token, e) && match e.link {
            LinkView::CreateUser(agent) => {
                &&& !before.login_db.logins().contains_key(encode_utf8(form.email@))
                &&& after.user_db.contents() == before.user_db.contents().insert(
                    id.key_bytes(),
                    record_bytes::<User>(crate::forms::new_user(form.email@, form.forename@, form.surname@, agent)),
                )
                &&& after.login_db.logins() == before.login_db.logins().insert(
                    encode_utf8(form.email@),
                    login_bytes(new_login(form.password@, id, false)),
                )
            },
            _ => false,
        }
}

/// The texts of a list of pairs of strings.
pub open spec fn text_pairs(v: Seq<(String, String)>) -> Seq<(Seq<char>, Seq<char>)> {
    v.map_values(|p: (String, String)| (p.0@, p.1@))
}

/// The navigation a user of kind `agent` sees: the organisations and
/// outstanding achievements for staff of the portal, the pupils of their
/// organisation for its administrator and teachers, their own sections for
/// a pupil.
pub open spec fn nav_items_spec(user_key: UserKey, agent: AgentView) -> Seq<(Seq<char>, Seq<char>)> {
    match agent {
        AgentView::Owner | AgentView::Admin => seq![
            (dir::ORGS_PAGE@, dir::ORGS_TITLE@),
            (dir::OA_PAGE@, dir::OA_TITLE@),
        ],
        AgentView::Organisation(org_id) | AgentView::Associate(org_id) => seq![
            (dir::org_path_text(org_id), dir::CLIENTS_TITLE@),
        ],
        AgentView::Client { org_id, .. } => seq![(dir::client_path_text(org_id, user_key), dir::SECTIONS_TITLE@)],
    }
}

/// Whether `ctx` is what a check of `token` finds in `d`: the token's
/// session is stored, `ctx` holds its user (when the session can be read),
/// and the user as stored.
pub open spec fn context_found(d: SharedData, token: AuthToken, ctx: AuthContext) -> bool {
    &&& ctx.auth_token == token
    &&& d.auth_manager.sessions().contains_key(token.key_bytes())
    &&& forall|s: AuthSession|
        d.auth_manager.sessions()[token.key_bytes()] == #[trigger] session_bytes(s) ==> ctx.user_id == s.user()
    &&& fetched(d.user_db.stored(ctx.user_id.key_bytes()), Ok::<Option<User>, StoreError>(Some(ctx.user)))
}

/// Whether checking `token` in `d` meets bytes that are no record: the
/// session's, or those of the session's user.
pub open spec fn lookup_unreadable(d: SharedData, token: AuthToken) -> bool {
    d.auth_manager.sessions().contains_key(token.key_bytes()) && (!is_record_bytes::<AuthSession>(
        d.auth_manager.sessions()[token.key_bytes()],
    ) || forall|s: AuthSession|
        d.auth_manager.sessions()[token.key_bytes()] == #[trigger] session_bytes(s) ==> (d.user_db.stored(
            s.user().key_bytes(),
        ) matches Some(b) && !is_record_bytes::<User>(b)))
}

/// Whether a check of `token` in `d` finding nobody is explained: no
/// session is stored under the token, or the session had expired at some
/// instant, or its user is no longer stored.
pub open spec fn nobody_found(d: SharedData, token: AuthToken, push_expiry: bool) -> bool {
    !d.auth_manager.sessions().contains_key(token.key_bytes()) || forall|s: AuthSession|
        d.auth_manager.sessions()[token.key_bytes()] == #[trigger] session_bytes(s) ==> (exists|now: u128|
            now < MAX_INSTANT && #[trigger] s.check_at(now, push_expiry) is Expired) || d.user_db.stored(
            s.user().key_bytes(),
        ) is None
}

impl SharedData {
    /// Opens the stores kept under `fs_root`, and sets up the awards.
    pub fn load_from_disk(fs_root: String) -> (res: Result<Self, sled::Error>)
        ensures
            res matches Ok(d) ==> d.fs_root@ == fs_root@ && d.awards@.len() == 2 && d.awards@[0].0@ == "silver"@
                && d.awards@[1].0@ == "gold"@,
    {
        let login_db = match LoginDb::open(fs_root.clone().concat("/login.sleddb").as_str()) {
            Ok(db) => db,
            Err(e) => return Err(e),
        };
        let user_db = match UserDb::open(fs_root.clone().concat("/user.sleddb").as_str()) {
            Ok(db) => db,
            Err(e) => return Err(e),
        };
        let org_db = match OrgDb::open(fs_root.clone().concat("/org.sleddb").as_str()) {
            Ok(db) => db,
            Err(e) => return Err(e),
        };
        let section_db = match SectionDb::open(fs_root.clone().concat("/section.sleddb").as_str()) {
            Ok(db) => db,
            Err(e) => return Err(e),
        };
        let awards = AwardInfo::awards();
        let auth_manager = match AuthManager::open(fs_root.clone().concat("/auth.sleddb").as_str()) {
            Ok(m) => m,
            Err(e) => return Err(e),
        };
        let link_manager = match LinkManager::open(fs_root.clone().concat("/link.sleddb").as_str()) {
            Ok(m) => m,
            Err(e) => return Err(e),
        };
        Ok(SharedData { fs_root, login_db, user_db, org_db, section_db, awards, link_manager, auth_manager })
    }

    /// Logs in with the user name and password: on success a session of
    /// `timeout` nanoseconds is started for the account's user.
    pub fn login(&mut self, username: &str, password: &str, timeout: u128) -> (res: Result<AuthContext, AuthError>)
        requires
            timeout < MAX_INSTANT,
        ensures
            final(self).login_db == old(self).login_db,
            final(self).user_db == old(self).user_db,
            final(self).org_db == old(self).org_db,
            final(self).section_db == old(self).section_db,
            login_outcome(*old(self), *final(self), username@, password@, timeout, res),
            final(self).link_manager == old(self).link_manager,
            (res matches Err(AuthError::NoUser)) || (res matches Err(AuthError::IncorrectPassword)) ==> (final(self).auth_manager
                == old(self).auth_manager),
    {
        match self.login_db.authenticate(username, password) {
            Ok(user_id) => match self.user_db.fetch(&user_id) {
                Ok(Some(user)) => match self.auth_manager.create_session(&user_id, timeout) {
                    Ok(auth_token) => Ok(AuthContext { auth_token, user, user_id }),
                    Err(e) => Err(AuthError::DbError(e)),
                },
                Ok(None) => Err(AuthError::NoUser),
                Err(e) => Err(AuthError::DbError(e)),
            },
            Err(e) => Err(e),
        }
    }

    /// Ends the session whose token the cookie holds, if it holds one.
    pub fn logout(&mut self, auth_cookie: Option<&str>) -> (res: Result<(), sled::Error>)
        ensures
            final(self).login_db == old(self).login_db,
            final(self).user_db == old(self).user_db,
            final(self).org_db == old(self).org_db,
            match auth_cookie {
                Some(c) => match uuid_parse(c@) {
                    Some(t) => res is Ok ==> final(self).auth_manager.sessions() == old(
                        self,
                    ).auth_manager.sessions().remove(AuthToken(t).key_bytes()),
                    None => res is Ok && final(self).auth_manager.sessions() == old(self).auth_manager.sessions(),
                },
                None => res is Ok && final(self).auth_manager.sessions() == old(self).auth_manager.sessions(),
            },
    {
        match auth_cookie {
            Some(value) => match AuthToken::from_str(value) {
                Ok(auth_token) => self.auth_manager.destroy_session(&auth_token),
                Err(_) => Ok(()),
            },
            None => Ok(()),
        }
    }

    /// Records a user of kind `agent` in its organisation: a pupil joins the
    /// pupils and uses a credit, a teacher joins the teachers. Returns
    /// whether the organisation was changed; it is left as it is when the
    /// user is of no organisation, the organisation is not found, or the
    /// user cannot join it.
    pub fn join_org(&mut self, user_id: UserKey, agent: &UserAgent) -> (res: Result<bool, StoreError>)
        ensures
            final(self).org_db.failures() == old(self).org_db.failures() ==> join_outcome(
                old(self).org_db.contents(),
                final(self).org_db.contents(),
                agent@,
                user_id,
            ),
            final(self).org_db.failures() >= old(self).org_db.failures(),
            final(self).login_db == old(self).login_db,
            final(self).user_db == old(self).user_db,
            final(self).auth_manager == old(self).auth_manager,
            final(self).section_db == old(self).section_db,
            final(self).link_manager == old(self).link_manager,
            res matches Ok(false) ==> final(self).org_db.contents() == old(self).org_db.contents(),
            res matches Ok(true) ==> member_org(agent@) matches Some(k) && old(self).org_db.stored(k.key_bytes()) matches Some(
                b,
            ) && exists|o: OrgView|
                #[trigger] decodes_to::<Org>(b, o) && may_join(o, agent@, user_id) && final(self).org_db.contents()
                    == old(self).org_db.contents().insert(k.key_bytes(), record_bytes::<Org>(joined(o, agent@, user_id))),
            member_org(agent@) is None ==> res == Ok::<bool, StoreError>(false),
            member_org(agent@) matches Some(k) ==> forall|o: OrgView|
                old(self).org_db.stored(k.key_bytes()) == Some(#[trigger] record_bytes::<Org>(o)) ==> match res {
                    Ok(true) => may_join(o, agent@, user_id) && final(self).org_db.contents() == old(
                        self,
                    ).org_db.contents().insert(k.key_bytes(), record_bytes::<Org>(joined(o, agent@, user_id))),
                    Ok(false) => !may_join(o, agent@, user_id),
                    Err(e) => e is DbError,
                },
    {
        let ghost old_orgs = self.org_db.contents();
        let org_id = match agent {
            UserAgent::Client { org_id, .. } => *org_id,
            UserAgent::Associate(org_id) => *org_id,
            _ => {
                return Ok(false);
            },
        };
        match self.org_db.fetch(&org_id) {
            Ok(Some(mut org)) => {
                let ghost o = org@;
                proof {
                    assert forall|o2: OrgView|
                        old_orgs.contains_key(org_id.key_bytes()) && old_orgs[org_id.key_bytes()]
                            == #[trigger] record_bytes::<Org>(o2) implies o2 == o by {}
                    assert(decodes_to::<Org>(self.org_db.stored(org_id.key_bytes())->Some_0, o));
                }
                let admitted = match agent {
                    UserAgent::Client { .. } => org.admit_client(user_id),
                    _ => org.admit_associate(user_id),
                };
                if admitted {
                    assert(org@ == joined(o, agent@, user_id));
                    match self.org_db.insert(&org_id, &org) {
                        Ok(()) => Ok(true),
                        Err(e) => Err(e),
                    }
                } else {
                    Ok(false)
                }
            },
            Ok(None) => Ok(false),
            Err(StoreError::DbError(e)) => {
                self.org_db.note_failure(&e);
                Err(StoreError::DbError(e))
            },
            Err(e) => {
                proof {
                    assert forall|o2: OrgView|
                        old_orgs.contains_key(org_id.key_bytes()) && old_orgs[org_id.key_bytes()]
                            == #[trigger] record_bytes::<Org>(o2) implies e is DbError by {
                        assert(Org::valid_view(o2));
                        assert(crate::codec::is_record_bytes::<Org>(old_orgs[org_id.key_bytes()]));
                    }
                }
                Err(e)
            },
        }
    }

    /// Removes a user of kind `agent` from its organisation: a pupil leaves
    /// the pupils and gives back a credit, a teacher leaves the teachers.
    /// Returns whether the organisation was changed; it is left as it is
    /// when the user is of no organisation, the organisation is not found,
    /// or its credits are at their limit.
    pub fn leave_org(&mut self, user_id: UserKey, agent: &UserAgent) -> (res: Result<bool, StoreError>)
        ensures
            final(self).org_db.failures() == old(self).org_db.failures() ==> leave_outcome(
                old(self).org_db.contents(),
                final(self).org_db.contents(),
                agent@,
                user_id,
            ),
            final(self).org_db.failures() >= old(self).org_db.failures(),
            final(self).org_db.failures() == old(self).org_db.failures() ==> org_changed_at_most(
                old(self).org_db.contents(),
                final(self).org_db.contents(),
                member_org(agent@),
            ),
            final(self).login_db == old(self).login_db,
            final(self).user_db == old(self).user_db,
            final(self).auth_manager == old(self).auth_manager,
            final(self).section_db == old(self).section_db,
            final(self).link_manager == old(self).link_manager,
            res matches Ok(false) ==> final(self).org_db.contents() == old(self).org_db.contents(),
            res matches Ok(true) ==> member_org(agent@) matches Some(k) && old(self).org_db.stored(k.key_bytes()) matches Some(
                b,
            ) && exists|o: OrgView|
                #[trigger] decodes_to::<Org>(b, o) && may_leave(o, agent@) && final(self).org_db.contents()
                    == old(self).org_db.contents().insert(k.key_bytes(), record_bytes::<Org>(left(o, agent@, user_id))),
            member_org(agent@) is None ==> res == Ok::<bool, StoreError>(false),
            member_org(agent@) matches Some(k) ==> forall|o: OrgView|
                old(self).org_db.stored(k.key_bytes()) == Some(#[trigger] record_bytes::<Org>(o)) ==> match res {
                    Ok(true) => may_leave(o, agent@) && final(self).org_db.contents() == old(
                        self,
                    ).org_db.contents().insert(k.key_bytes(), record_bytes::<Org>(left(o, agent@, user_id))),
                    Ok(false) => !may_leave(o, agent@),
                    Err(e) => e is DbError,
                },
    {
        let ghost old_orgs = self.org_db.contents();
        let org_id = match agent {
            UserAgent::Client { org_id, .. } => *org_id,
            UserAgent::Associate(org_id) => *org_id,
            _ => {
                return Ok(false);
            },
        };
        match self.org_db.fetch(&org_id) {
            Ok(Some(mut org)) => {
                let ghost o = org@;
                proof {
                    assert forall|o2: OrgView|
                        old_orgs.contains_key(org_id.key_bytes()) && old_orgs[org_id.key_bytes()]
                            == #[trigger] record_bytes::<Org>(o2) implies o2 == o by {}
                    assert(decodes_to::<Org>(self.org_db.stored(org_id.key_bytes())->Some_0, o));
                }
                let recorded = match agent {
                    UserAgent::Client { .. } => if org.credits < u32::MAX {
                        org.release_client(user_id);
                        true
                    } else {
                        false
                    },
                    _ => {
                        org.release_associate(user_id);
                        true
                    },
                };
                if recorded {
                    assert(org@ == left(o, agent@, user_id));
                    let ghost before = self.org_db.contents();
                    match self.org_db.insert(&org_id, &org) {
                        Ok(()) => {
                            proof {
                                assert(self.org_db.contents().dom() =~= before.dom());
                            }
                            Ok(true)
                        },
                        Err(e) => Err(e),
                    }
                } else {
                    Ok(false)
                }
            },
            Ok(None) => Ok(false),
            Err(StoreError::DbError(e)) => {
                self.org_db.note_failure(&e);
                Err(StoreError::DbError(e))
            },
            Err(e) => {
                proof {
                    assert forall|o2: OrgView|
                        old_orgs.contains_key(org_id.key_bytes()) && old_orgs[org_id.key_bytes()]
                            == #[trigger] record_bytes::<Org>(o2) implies e is DbError by {
                        assert(Org::valid_view(o2));
                        assert(crate::codec::is_record_bytes::<Org>(old_orgs[org_id.key_bytes()]));
                    }
                }
                Err(e)
            },
        }
    }

    /// Creates an account: stores the user under a fresh key and a login
    /// under its email, then records the user in its organisation (a
    /// failure there is ignored). A login left without its user is undone.
    pub fn register_user(&mut self, user: &User, password: &str, default_password: bool) -> (res: Result<UserKey, LoginEntryError>)
        ensures
            final(self).auth_manager == old(self).auth_manager,
            final(self).section_db == old(self).section_db,
            final(self).link_manager == old(self).link_manager,
            res is Err ==> final(self).org_db == old(self).org_db,
            res matches Ok(id) ==> registered(*old(self), *final(self), user@, password@, default_password, id),
            res matches Ok(id) ==> (final(self).org_db.failures() == old(self).org_db.failures() ==> join_outcome(
                old(self).org_db.contents(),
                final(self).org_db.contents(),
                user@.user_agent,
                id,
            )),
            res is Err && final(self).user_db.failures() == old(self).user_db.failures() ==> final(self).user_db.contents()
                == old(self).user_db.contents() || exists|id: UserKey|
                is_random_uuid(id.0) && old(self).user_db.contents().contains_key(#[trigger] id.key_bytes())
                    && final(self).user_db.contents() == old(self).user_db.contents().remove(id.key_bytes()),
            res matches Err(LoginEntryError::DbError(e)) ==> e is DbError,
            old(self).login_db.logins().contains_key(encode_utf8(user@.email)) ==> res matches Err(
                LoginEntryError::UsernameExists,
            ) || res matches Err(LoginEntryError::DbError(_)),
            !old(self).login_db.logins().contains_key(encode_utf8(user@.email)) ==> !(res matches Err(
                LoginEntryError::UsernameExists,
            )),
            res matches Err(LoginEntryError::UsernameExists) ==> final(self).org_db == old(self).org_db,
            res matches Err(LoginEntryError::UsernameExists) ==> old(self).login_db.logins().contains_key(
                encode_utf8(user@.email),
            ) && final(self).user_db == old(self).user_db && final(self).login_db == old(self).login_db,
            !(res matches Err(LoginEntryError::NotUnique)),
    {
        match self.login_db.db().contains_key(user.email.as_str()) {
            Ok(exists) => {
                if !exists {
                    let user_id = UserKey::generate();
                    match self.user_db.insert(&user_id, user) {
                        Ok(_) => {
                            let login_entry = LoginEntry {
                                user_id,
                                password: password.to_owned(),
                                default_password,
                            };
                            assert(login_entry@ == new_login(password@, user_id, default_password));
                            match self.login_db.add_entry(user.email.as_str(), &login_entry) {
                                Ok(_) => {
                                    let _ = self.join_org(user_id, &user.user_agent);
                                    Ok(user_id)
                                },
                                Err(e) => {
                                    let ghost before = old(self).user_db.contents();
                                    let _ = self.user_db.remove_silent(&user_id);
                                    proof {
                                        assert(before.insert(user_id.key_bytes(), record_bytes::<User>(user@)).remove(
                                            user_id.key_bytes(),
                                        ) =~= before.remove(user_id.key_bytes()));
                                        if !before.contains_key(user_id.key_bytes()) {
                                            assert(before.remove(user_id.key_bytes()) =~= before);
                                        }
                                    }
                                    Err(e)
                                },
                            }
                        },
                        Err(e) => Err(LoginEntryError::DbError(e)),
                    }
                } else {
                    Err(LoginEntryError::UsernameExists)
                }
            },
            Err(e) => Err(LoginEntryError::DbError(StoreError::DbError(e))),
        }
    }

    /// Deletes a user: the user, then its login and its place in its
    /// organisation (failures there are ignored). Deleting a user that is
    /// not stored does nothing.
    pub fn delete_user(&mut self, user_id: &UserKey) -> (res: Result<(), StoreError>)
        ensures
            user_deletion(*old(self), *final(self), *user_id, res),
            final(self).auth_manager == old(self).auth_manager,
            final(self).section_db == old(self).section_db,
            final(self).link_manager == old(self).link_manager,
            !(res matches Err(StoreError::DbError(_))) ==> final(self).user_db.contents() == old(
                self,
            ).user_db.contents().remove(user_id.key_bytes()),
            res matches Err(e) ==> e is DbError || (old(self).user_db.stored(user_id.key_bytes()) matches Some(b)
                && !is_record_bytes::<User>(b) && read_value::<User>(b) is None),
            res is Err ==> final(self).login_db == old(self).login_db && final(self).org_db == old(self).org_db,
            unreadable::<User>(old(self).user_db.contents(), user_id.key_bytes()) ==> res is Err,
            forall|u: UserView|
                #[trigger] user_read_as(old(self).user_db.contents(), *user_id, u) && final(self).org_db.failures() == old(
                    self,
                ).org_db.failures() ==> org_changed_at_most(
                    old(self).org_db.contents(),
                    final(self).org_db.contents(),
                    member_org(u.user_agent),
                ),
            final(self).user_db.failures() == old(self).user_db.failures() + if res matches Err(StoreError::DbError(_)) {
                1nat
            } else {
                0nat
            },
            final(self).login_db.failures() >= old(self).login_db.failures(),
            final(self).org_db.failures() >= old(self).org_db.failures(),
            old(self).user_db.stored(user_id.key_bytes()) is None ==> (res is Ok ==> final(self).login_db
                == old(self).login_db && final(self).org_db == old(self).org_db),
            forall|u: UserView|
                User::valid_view(u) && old(self).user_db.stored(user_id.key_bytes()) == Some(#[trigger] record_bytes::<User>(u))
                    ==> (res is Ok && (final(self).login_db.failures() == old(self).login_db.failures()
                    ==> final(self).login_db.logins() == old(self).login_db.logins().remove(encode_utf8(u.email))) && (
                final(self).org_db.failures() == old(self).org_db.failures() ==> leave_outcome(
                    old(self).org_db.contents(),
                    final(self).org_db.contents(),
                    u.user_agent,
                    *user_id,
                ))) || (res matches Err(e) && e is DbError),
            forall|u: UserView|
                #[trigger] user_read_as(old(self).user_db.contents(), *user_id, u) ==> (res is Ok && (final(self).login_db.failures()
                    == old(self).login_db.failures() ==> final(self).login_db.logins() == old(self).login_db.logins().remove(
                    encode_utf8(u.email),
                )) && (final(self).org_db.failures() == old(self).org_db.failures() ==> leave_outcome(
                    old(self).org_db.contents(),
                    final(self).org_db.contents(),
                    u.user_agent,
                    *user_id,
                ))) || (res matches Err(e) && e is DbError),
    {
        match self.user_db.remove(user_id) {
            Ok(Some(user)) => {
                let _ = self.login_db.remove_login(user.email.as_str());
                let _ = self.leave_org(*user_id, &user.user_agent);
                Ok(())
            },
            Ok(None) => Ok(()),
            Err(e) => Err(e),
        }
    }

    /// The context of the live session of the token, if any; with
    /// `push_expiry` the session is extended.
    pub fn authenticate_context(&mut self, auth_token: AuthToken, push_expiry: bool) -> (res: Result<Option<AuthContext>, StoreError>)
        ensures
            final(self).login_db == old(self).login_db,
            final(self).user_db == old(self).user_db,
            final(self).org_db == old(self).org_db,
            final(self).section_db == old(self).section_db,
            res matches Ok(Some(ctx)) ==> context_found(*old(self), auth_token, ctx),
            res matches Ok(None) ==> nobody_found(*old(self), auth_token, push_expiry),
            res matches Err(e) ==> e is DbError || lookup_unreadable(*old(self), auth_token),
    {
        let ghost old_self = *self;
        match self.auth_manager.check_token(&auth_token, push_expiry) {
            Ok(Some(user_id)) => match self.user_db.fetch(&user_id) {
                Ok(Some(user)) => {
                    let ctx = AuthContext { auth_token, user, user_id };
                    assert(context_found(old_self, auth_token, ctx));
                    Ok(Some(ctx))
                },
                Ok(None) => {
                    assert(nobody_found(old_self, auth_token, push_expiry));
                    Ok(None)
                },
                Err(e) => Err(e),
            },
            Ok(None) => {
                assert(nobody_found(old_self, auth_token, push_expiry));
                Ok(None)
            },
            Err(e) => Err(e),
        }
    }

    /// The context of the session whose token the cookie holds, if any.
    pub fn authenticate_context_from_request(&mut self, auth_cookie: Option<&str>, push_expiry: bool) -> (res: Result<Option<AuthContext>, StoreError>)
        ensures
            final(self).login_db == old(self).login_db,
            final(self).user_db == old(self).user_db,
            final(self).org_db == old(self).org_db,
            final(self).section_db == old(self).section_db,
            match auth_cookie {
                Some(c) => match uuid_parse(c@) {
                    Some(t) => (res matches Ok(Some(ctx)) ==> context_found(*old(self), AuthToken(t), ctx)) && (
                    res matches Ok(None) ==> nobody_found(*old(self), AuthToken(t), push_expiry)),
                    None => res matches Ok(None) && *final(self) == *old(self),
                },
                None => res matches Ok(None) && *final(self) == *old(self),
            },
    {
        match auth_cookie {
            Some(value) => match AuthToken::from_str(value) {
                Ok(auth_token) => self.authenticate_context(auth_token, push_expiry),
                Err(_) => Ok(None),
            },
            None => Ok(None),
        }
    }

    /// Stores a new section under a fresh key.
    pub fn add_section(&mut self, section: &Section) -> (res: Result<SectionKey, StoreError>)
        ensures
            final(self).login_db == old(self).login_db,
            final(self).user_db == old(self).user_db,
            final(self).org_db == old(self).org_db,
            final(self).auth_manager == old(self).auth_manager,
            final(self).link_manager == old(self).link_manager,
            final(self).awards == old(self).awards,
            final(self).fs_root == old(self).fs_root,
            res matches Ok(k) ==> is_random_uuid(k.0) && final(self).section_db.contents() == old(
                self,
            ).section_db.contents().insert(k.key_bytes(), record_bytes::<Section>(section@)),
            res is Err ==> res->Err_0 is DbError,
            final(self).section_db.failures() == old(self).section_db.failures() + if res is Ok {
                0nat
            } else {
                1nat
            },
    {
        let section_id = SectionKey::generate();
        match self.section_db.insert(&section_id, section) {
            Ok(_) => Ok(section_id),
            Err(e) => Err(e),
        }
    }

    /// The navigation of the logged-in user, if any.
    pub fn nav_items_for_context(&self, ctx: Option<AuthContext>) -> (res: Vec<(String, String)>)
        ensures
            text_pairs(res@) == match ctx {
                Some(c) => nav_items_spec(c.user_id, c.user.user_agent@),
                None => Seq::empty(),
            },
    {
        match ctx {
            Some(ctx) => self.nav_items_for_agent(&ctx.user_id, &ctx.user.user_agent),
            None => {
                let v: Vec<(String, String)> = Vec::new();
                assert(text_pairs(v@) =~= Seq::empty());
                v
            },
        }
    }

    /// The navigation of a user of the given kind.
    pub fn nav_items_for_agent(&self, user_key: &UserKey, agent: &UserAgent) -> (res: Vec<(String, String)>)
        ensures
            text_pairs(res@) == nav_items_spec(*user_key, agent@),
    {
        let mut v: Vec<(String, String)> = Vec::new();
        match agent {
            UserAgent::Owner | UserAgent::Admin => {
                v.push((dir::ORGS_PAGE.to_owned(), dir::ORGS_TITLE.to_owned()));
                v.push((dir::OA_PAGE.to_owned(), dir::OA_TITLE.to_owned()));
            },
            UserAgent::Organisation(org_id) | UserAgent::Associate(org_id) => {
                v.push((dir::org_path(*org_id), dir::CLIENTS_TITLE.to_owned()));
            },
            UserAgent::Client { org_id, .. } => {
                v.push((dir::client_path(*org_id, *user_key), dir::SECTIONS_TITLE.to_owned()));
            },
        }
        assert(text_pairs(v@) =~= nav_items_spec(*user_key, agent@));
        v
    }

    /// The folder of a section's files.
    pub fn section_path(&self, section_id: &SectionKey) -> (res: String)
        ensures
            res@ == self.fs_root@ + "/sections/"@ + uuid_text(section_id.0) + "/"@,
    {
        let id = section_id.to_string();
        self.fs_root.clone().concat("/sections/").concat(id.as_str()).concat("/")
    }

    /// The path of one of a section's files.
    pub fn path_for_asset(&self, section_id: &SectionKey, filename: &str) -> (res: String)
        ensures
            res@ == self.fs_root@ + "/sections/"@ + uuid_text(section_id.0) + "/"@ + filename@,
    {
        let id = section_id.to_string();
        self.fs_root.clone().concat("/sections/").concat(id.as_str()).concat("/").concat(filename)
    }

    /// Keys the entries read from the users' store by identifier.
    fn user_entries_from(&self, raw0: Vec<(Vec<u8>, Option<User>)>, complete: bool) -> (res: (Vec<(UserKey, Option<User>)>, bool))
        requires
            entries_read::<User>(self.user_db.contents(), raw0@, complete),
        ensures
            forall|i: int|
                0 <= i < res.0@.len() ==> #[trigger] self.user_db.contents().contains_key(be_bytes(res.0@[i].0.0))
                    && match res.0@[i].1 {
                    Some(u) => decodes_to::<User>(self.user_db.contents()[be_bytes(res.0@[i].0.0)], u@),
                    None => !is_record_bytes::<User>(self.user_db.contents()[be_bytes(res.0@[i].0.0)]),
                },
            forall|i: int, j: int|
                0 <= i < j < res.0@.len() ==> #[trigger] be_bytes(res.0@[i].0.0) != #[trigger] be_bytes(res.0@[j].0.0),
            res.1 ==> forall|k: Seq<u8>|
                #[trigger] self.user_db.contents().contains_key(k) && k.len() == 16 ==> exists|i: int|
                    0 <= i < res.0@.len() && be_bytes(res.0@[i].0.0) == k,
            forall|i: int|
                0 <= i < res.0@.len() && #[trigger] res.0@[i].1 is Some ==> read_value::<User>(
                    self.user_db.contents()[be_bytes(res.0@[i].0.0)],
                ) == Some(res.0@[i].1->Some_0@),
            res.1 == complete,
    {
        let mut raw = raw0;
        let ghost all = raw@;
        let ghost c = self.user_db.contents();
        proof {
            assert forall|a: int| 0 <= a < all.len() implies #[trigger] c.contains_key(all[a].0@) && value_read_as(
                all[a].1,
                c[all[a].0@],
            ) by {
                assert(c.contains_key(all[a].0@));
            }
        }
        let mut out: Vec<(UserKey, Option<User>)> = Vec::new();
        let ghost mut n: int = 0;
        let ghost mut idx: Seq<int> = Seq::empty();
        while raw.len() > 0
            invariant
                0 <= n <= all.len(),
                raw@ == all.skip(n),
                c == self.user_db.contents(),
                forall|a: int| 0 <= a < all.len() ==> #[trigger] c.contains_key(all[a].0@) && value_read_as(all[a].1, c[all[a].0@]),
                forall|a: int, b: int| 0 <= a < b < all.len() ==> #[trigger] all[a].0@ != #[trigger] all[b].0@,
                idx.len() == out@.len(),
                forall|i: int| 0 <= i < out@.len() ==> 0 <= #[trigger] idx[i] < n && be_bytes(out@[i].0.0) == all[idx[i]].0@
                    && out@[i].1 == all[idx[i]].1,
                forall|i: int, j: int| 0 <= i < j < out@.len() ==> #[trigger] idx[i] < #[trigger] idx[j],
                forall|a: int| 0 <= a < n && all[a].0@.len() == 16 ==> exists|i: int|
                    0 <= i < out@.len() && #[trigger] idx[i] == a,
            decreases raw@.len(),
        {
            let (key, value) = raw.remove(0);
            proof {
                assert(all.skip(n)[0] == all[n]);
            }
            match UserKey::from_key_bytes(&key) {
                Some(user_id) => {
                    let ghost old_idx = idx;
                    out.push((user_id, value));
                    proof {
                        idx = idx.push(n);
                        assert forall|a: int| 0 <= a < n + 1 && all[a].0@.len() == 16 implies exists|i: int|
                            0 <= i < out@.len() && #[trigger] idx[i] == a by {
                            if a == n {
                                assert(idx[idx.len() - 1] == a);
                            } else {
                                let i = choose|i: int| 0 <= i < old_idx.len() && #[trigger] old_idx[i] == a;
                                assert(idx[i] == a);
                            }
                        }
                    }
                },
                None => {},
            }
            proof {
                assert(raw@ =~= all.skip(n + 1));
                n = n + 1;
            }
        }
        proof {
            assert forall|i: int, j: int| 0 <= i < j < out@.len() implies #[trigger] be_bytes(out@[i].0.0) != #[trigger] be_bytes(
                out@[j].0.0,
            ) by {
                assert(idx[i] < idx[j]);
                assert(all[idx[i]].0@ != all[idx[j]].0@);
            }
            assert forall|i: int| 0 <= i < out@.len() implies #[trigger] c.contains_key(be_bytes(out@[i].0.0)) && match out@[i].1 {
                Some(u) => decodes_to::<User>(c[be_bytes(out@[i].0.0)], u@),
                None => !is_record_bytes::<User>(c[be_bytes(out@[i].0.0)]),
            } by {
                let a = idx[i];
                assert(c.contains_key(all[a].0@));
            }
            if complete {
                assert forall|k: Seq<u8>| #[trigger] c.contains_key(k) && k.len() == 16 implies exists|i: int|
                    0 <= i < out@.len() && be_bytes(out@[i].0.0) == k by {
                    let a = choose|a: int| 0 <= a < all.len() && all[a].0@ == k;
                    let i = choose|i: int| 0 <= i < out@.len() && #[trigger] idx[i] == a;
                }
            }
        }
        proof {
            assert forall|i: int| 0 <= i < out@.len() && #[trigger] out@[i].1 is Some implies read_value::<User>(
                c[be_bytes(out@[i].0.0)],
            ) == Some(out@[i].1->Some_0@) by {
                let a = idx[i];
                assert(c.contains_key(all[a].0@));
            }
        }
        (out, complete)
    }

    /// The stored users whose keys are identifiers, each with the user when
    /// its bytes are a user's, and whether the store yielded every entry.
    pub fn user_entries(&self) -> (res: (Vec<(UserKey, Option<User>)>, bool))
        ensures
            forall|i: int|
                0 <= i < res.0@.len() ==> #[trigger] self.user_db.contents().contains_key(be_bytes(res.0@[i].0.0))
                    && match res.0@[i].1 {
                    Some(u) => decodes_to::<User>(self.user_db.contents()[be_bytes(res.0@[i].0.0)], u@),
                    None => !is_record_bytes::<User>(self.user_db.contents()[be_bytes(res.0@[i].0.0)]),
                },
            forall|i: int, j: int|
                0 <= i < j < res.0@.len() ==> #[trigger] be_bytes(res.0@[i].0.0) != #[trigger] be_bytes(res.0@[j].0.0),
            res.1 ==> forall|k: Seq<u8>|
                #[trigger] self.user_db.contents().contains_key(k) && k.len() == 16 ==> exists|i: int|
                    0 <= i < res.0@.len() && be_bytes(res.0@[i].0.0) == k,
    {
        let (raw, complete) = self.user_db.entries();
        let res = self.user_entries_from(raw, complete);
        proof {
            assert forall|i: int| 0 <= i < res.0@.len() implies #[trigger] self.user_db.contents().contains_key(be_bytes(res.0@[i].0.0))
                && match res.0@[i].1 {
                Some(u) => decodes_to::<User>(self.user_db.contents()[be_bytes(res.0@[i].0.0)], u@),
                None => !is_record_bytes::<User>(self.user_db.contents()[be_bytes(res.0@[i].0.0)]),
            } by {
                assert(self.user_db.contents().contains_key(be_bytes(res.0@[i].0.0)));
            }
        }
        res
    }

    /// The stored users whose keys are identifiers, each with the user when
    /// its bytes are a user's, and whether the store yielded every entry; a
    /// step of the walk that failed is recorded as a failure of the store.
    pub fn user_walk(&mut self) -> (res: (Vec<(UserKey, Option<User>)>, bool))
        ensures
            forall|i: int|
                0 <= i < res.0@.len() ==> #[trigger] final(self).user_db.contents().contains_key(be_bytes(res.0@[i].0.0))
                    && match res.0@[i].1 {
                    Some(u) => decodes_to::<User>(final(self).user_db.contents()[be_bytes(res.0@[i].0.0)], u@),
                    None => !is_record_bytes::<User>(final(self).user_db.contents()[be_bytes(res.0@[i].0.0)]),
                },
            forall|i: int, j: int|
                0 <= i < j < res.0@.len() ==> #[trigger] be_bytes(res.0@[i].0.0) != #[trigger] be_bytes(res.0@[j].0.0),
            res.1 ==> forall|k: Seq<u8>|
                #[trigger] final(self).user_db.contents().contains_key(k) && k.len() == 16 ==> exists|i: int|
                    0 <= i < res.0@.len() && be_bytes(res.0@[i].0.0) == k,
            forall|i: int|
                0 <= i < res.0@.len() && #[trigger] res.0@[i].1 is Some ==> read_value::<User>(
                    final(self).user_db.contents()[be_bytes(res.0@[i].0.0)],
                ) == Some(res.0@[i].1->Some_0@),
            final(self).user_db.contents() == old(self).user_db.contents(),
            final(self).user_db.failures() >= old(self).user_db.failures(),
            res.1 <==> final(self).user_db.failures() == old(self).user_db.failures(),
            final(self).login_db == old(self).login_db,
            final(self).org_db == old(self).org_db,
            final(self).section_db == old(self).section_db,
            final(self).auth_manager == old(self).auth_manager,
            final(self).link_manager == old(self).link_manager,
            final(self).awards == old(self).awards,
            final(self).fs_root == old(self).fs_root,
    {
        let (raw, complete) = self.user_db.walk();
        let res = self.user_entries_from(raw, complete);
        proof {
            assert forall|i: int| 0 <= i < res.0@.len() implies #[trigger] self.user_db.contents().contains_key(be_bytes(res.0@[i].0.0))
                && match res.0@[i].1 {
                Some(u) => decodes_to::<User>(self.user_db.contents()[be_bytes(res.0@[i].0.0)], u@),
                None => !is_record_bytes::<User>(self.user_db.contents()[be_bytes(res.0@[i].0.0)]),
            } by {
                assert(self.user_db.contents().contains_key(be_bytes(res.0@[i].0.0)));
            }
        }
        proof {
            assert forall|i: int| 0 <= i < res.0@.len() && #[trigger] res.0@[i].1 is Some implies read_value::<User>(
                self.user_db.contents()[be_bytes(res.0@[i].0.0)],
            ) == Some(res.0@[i].1->Some_0@) by {
                assert(self.user_db.contents().contains_key(be_bytes(res.0@[i].0.0)));
            }
        }
        res
    }

    /// Keys the entries read from the orgs' store by identifier.
    fn org_entries_from(&self, raw0: Vec<(Vec<u8>, Option<Org>)>, complete: bool) -> (res: (Vec<(OrgKey, Option<Org>)>, bool))
        requires
            entries_read::<Org>(self.org_db.contents(), raw0@, complete),
        ensures
            forall|i: int|
                0 <= i < res.0@.len() ==> #[trigger] self.org_db.contents().contains_key(be_bytes(res.0@[i].0.0))
                    && match res.0@[i].1 {
                    Some(u) => decodes_to::<Org>(self.org_db.contents()[be_bytes(res.0@[i].0.0)], u@),
                    None => !is_record_bytes::<Org>(self.org_db.contents()[be_bytes(res.0@[i].0.0)]),
                },
            forall|i: int, j: int|
                0 <= i < j < res.0@.len() ==> #[trigger] be_bytes(res.0@[i].0.0) != #[trigger] be_bytes(res.0@[j].0.0),
            res.1 ==> forall|k: Seq<u8>|
                #[trigger] self.org_db.contents().contains_key(k) && k.len() == 16 ==> exists|i: int|
                    0 <= i < res.0@.len() && be_bytes(res.0@[i].0.0) == k,
            res.1 == complete,
    {
        let mut raw = raw0;
        let ghost all = raw@;
        let ghost c = self.org_db.contents();
        proof {
            assert forall|a: int| 0 <= a < all.len() implies #[trigger] c.contains_key(all[a].0@) && value_read_as(
                all[a].1,
                c[all[a].0@],
            ) by {
                assert(c.contains_key(all[a].0@));
            }
        }
        let mut out: Vec<(OrgKey, Option<Org>)> = Vec::new();
        let ghost mut n: int = 0;
        let ghost mut idx: Seq<int> = Seq::empty();
        while raw.len() > 0
            invariant
                0 <= n <= all.len(),
                raw@ == all.skip(n),
                c == self.org_db.contents(),
                forall|a: int| 0 <= a < all.len() ==> #[trigger] c.contains_key(all[a].0@) && value_read_as(all[a].1, c[all[a].0@]),
                forall|a: int, b: int| 0 <= a < b < all.len() ==> #[trigger] all[a].0@ != #[trigger] all[b].0@,
                idx.len() == out@.len(),
                forall|i: int| 0 <= i < out@.len() ==> 0 <= #[trigger] idx[i] < n && be_bytes(out@[i].0.0) == all[idx[i]].0@
                    && out@[i].1 == all[idx[i]].1,
                forall|i: int, j: int| 0 <= i < j < out@.len() ==> #[trigger] idx[i] < #[trigger] idx[j],
                forall|a: int| 0 <= a < n && all[a].0@.len() == 16 ==> exists|i: int|
                    0 <= i < out@.len() && #[trigger] idx[i] == a,
            decreases raw@.len(),
        {
            let (key, value) = raw.remove(0);
            proof {
                assert(all.skip(n)[0] == all[n]);
            }
            match OrgKey::from_key_bytes(&key) {
                Some(org_id) => {
                    let ghost old_idx = idx;
                    out.push((org_id, value));
                    proof {
                        idx = idx.push(n);
                        assert forall|a: int| 0 <= a < n + 1 && all[a].0@.len() == 16 implies exists|i: int|
                            0 <= i < out@.len() && #[trigger] idx[i] == a by {
                            if a == n {
                                assert(idx[idx.len() - 1] == a);
                            } else {
                                let i = choose|i: int| 0 <= i < old_idx.len() && #[trigger] old_idx[i] == a;
                                assert(idx[i] == a);
                            }
                        }
                    }
                },
                None => {},
            }
            proof {
                assert(raw@ =~= all.skip(n + 1));
                n = n + 1;
            }
        }
        proof {
            assert forall|i: int, j: int| 0 <= i < j < out@.len() implies #[trigger] be_bytes(out@[i].0.0) != #[trigger] be_bytes(
                out@[j].0.0,
            ) by {
                assert(idx[i] < idx[j]);
                assert(all[idx[i]].0@ != all[idx[j]].0@);
            }
            assert forall|i: int| 0 <= i < out@.len() implies #[trigger] c.contains_key(be_bytes(out@[i].0.0)) && match out@[i].1 {
                Some(u) => decodes_to::<Org>(c[be_bytes(out@[i].0.0)], u@),
                None => !is_record_bytes::<Org>(c[be_bytes(out@[i].0.0)]),
            } by {
                let a = idx[i];
                assert(c.contains_key(all[a].0@));
            }
            if complete {
                assert forall|k: Seq<u8>| #[trigger] c.contains_key(k) && k.len() == 16 implies exists|i: int|
                    0 <= i < out@.len() && be_bytes(out@[i].0.0) == k by {
                    let a = choose|a: int| 0 <= a < all.len() && all[a].0@ == k;
                    let i = choose|i: int| 0 <= i < out@.len() && #[trigger] idx[i] == a;
                }
            }
        }
        (out, complete)
    }

    /// The stored organisations whose keys are identifiers, each with the
    /// organisation when its bytes are one's, and whether the store yielded every entry.
    pub fn org_entries(&self) -> (res: (Vec<(OrgKey, Option<Org>)>, bool))
        ensures
            forall|i: int|
                0 <= i < res.0@.len() ==> #[trigger] self.org_db.contents().contains_key(be_bytes(res.0@[i].0.0))
                    && match res.0@[i].1 {
                    Some(u) => decodes_to::<Org>(self.org_db.contents()[be_bytes(res.0@[i].0.0)], u@),
                    None => !is_record_bytes::<Org>(self.org_db.contents()[be_bytes(res.0@[i].0.0)]),
                },
            forall|i: int, j: int|
                0 <= i < j < res.0@.len() ==> #[trigger] be_bytes(res.0@[i].0.0) != #[trigger] be_bytes(res.0@[j].0.0),
            res.1 ==> forall|k: Seq<u8>|
                #[trigger] self.org_db.contents().contains_key(k) && k.len() == 16 ==> exists|i: int|
                    0 <= i < res.0@.len() && be_bytes(res.0@[i].0.0) == k,
    {
        let (raw, complete) = self.org_db.entries();
        let res = self.org_entries_from(raw, complete);
        proof {
            assert forall|i: int| 0 <= i < res.0@.len() implies #[trigger] self.org_db.contents().contains_key(be_bytes(res.0@[i].0.0))
                && match res.0@[i].1 {
                Some(u) => decodes_to::<Org>(self.org_db.contents()[be_bytes(res.0@[i].0.0)], u@),
                None => !is_record_bytes::<Org>(self.org_db.contents()[be_bytes(res.0@[i].0.0)]),
            } by {
                assert(self.org_db.contents().contains_key(be_bytes(res.0@[i].0.0)));
            }
        }
        res
    }

    /// The stored organisations whose keys are identifiers, each with the
    /// organisation when its bytes are one's, and whether the store yielded
    /// every entry; a step of the walk that failed is recorded as a failure of
    /// the store.
    pub fn org_walk(&mut self) -> (res: (Vec<(OrgKey, Option<Org>)>, bool))
        ensures
            forall|i: int|
                0 <= i < res.0@.len() ==> #[trigger] final(self).org_db.contents().contains_key(be_bytes(res.0@[i].0.0))
                    && match res.0@[i].1 {
                    Some(u) => decodes_to::<Org>(final(self).org_db.contents()[be_bytes(res.0@[i].0.0)], u@),
                    None => !is_record_bytes::<Org>(final(self).org_db.contents()[be_bytes(res.0@[i].0.0)]),
                },
            forall|i: int, j: int|
                0 <= i < j < res.0@.len() ==> #[trigger] be_bytes(res.0@[i].0.0) != #[trigger] be_bytes(res.0@[j].0.0),
            res.1 ==> forall|k: Seq<u8>|
                #[trigger] final(self).org_db.contents().contains_key(k) && k.len() == 16 ==> exists|i: int|
                    0 <= i < res.0@.len() && be_bytes(res.0@[i].0.0) == k,
            final(self).org_db.contents() == old(self).org_db.contents(),
            final(self).org_db.failures() >= old(self).org_db.failures(),
            res.1 <==> final(self).org_db.failures() == old(self).org_db.failures(),
            final(self).login_db == old(self).login_db,
            final(self).user_db == old(self).user_db,
            final(self).section_db == old(self).section_db,
            final(self).auth_manager == old(self).auth_manager,
            final(self).link_manager == old(self).link_manager,
            final(self).awards == old(self).awards,
            final(self).fs_root == old(self).fs_root,
    {
        let (raw, complete) = self.org_db.walk();
        let res = self.org_entries_from(raw, complete);
        proof {
            assert forall|i: int| 0 <= i < res.0@.len() implies #[trigger] self.org_db.contents().contains_key(be_bytes(res.0@[i].0.0))
                && match res.0@[i].1 {
                Some(u) => decodes_to::<Org>(self.org_db.contents()[be_bytes(res.0@[i].0.0)], u@),
                None => !is_record_bytes::<Org>(self.org_db.contents()[be_bytes(res.0@[i].0.0)]),
            } by {
                assert(self.org_db.contents().contains_key(be_bytes(res.0@[i].0.0)));
            }
        }
        res
    }

    /// Starts a pupil's section on the activity at `activity_index` of the
    /// section at `section_index` of the pupil's award: the new section is
    /// stored under a fresh key and recorded in the pupil (a failure to store
    /// the pupil is ignored).
    pub fn select_activity(&mut self, user_id: UserKey, user: User, section_index: usize, activity_index: usize) -> (res: Result<SectionKey, SelectActivityError>)
        ensures
            final(self).login_db == old(self).login_db,
            final(self).org_db == old(self).org_db,
            final(self).auth_manager == old(self).auth_manager,
            final(self).awards == old(self).awards,
            res is Err ==> final(self).user_db == old(self).user_db,
            res is Err && !(res matches Err(SelectActivityError::DbError(_))) ==> final(self).section_db == old(self).section_db,
            res matches Ok(k) ==> (final(self).user_db.failures() == old(self).user_db.failures()
                ==> final(self).user_db.contents() == old(self).user_db.contents().insert(
                user_id.key_bytes(),
                record_bytes::<User>(crate::user::with_section(user@, section_index as int, k)),
            )),
            section_index >= 6 ==> res matches Err(SelectActivityError::InvalidSection),
            section_index < 6 && !(user@.user_agent is Client) ==> res matches Err(SelectActivityError::NotAClient),
            match user@.user_agent {
                AgentView::Client { award, .. } => section_index < 6 ==> match chosen_activity(
                    old(self).awards@,
                    award,
                    section_index as int,
                    activity_index as int,
                ) {
                    Some(act) => match res {
                        Ok(k) => is_random_uuid(k.0) && final(self).section_db.contents() == old(
                            self,
                        ).section_db.contents().insert(
                            k.key_bytes(),
                            record_bytes::<Section>(fresh_section(section_index, award, act, user_id)),
                        ),
                        Err(e) => e matches SelectActivityError::DbError(se) && se is DbError,
                    },
                    None => if first_key(old(self).awards@, award) is None {
                        res matches Err(SelectActivityError::UnknownAward)
                    } else {
                        res matches Err(SelectActivityError::InvalidActivity)
                    },
                },
                _ => true,
            },
    {
        if section_index >= 6 {
            return Err(SelectActivityError::InvalidSection);
        }
        let award = match &user.user_agent {
            UserAgent::Client { award, .. } => award.clone(),
            _ => {
                return Err(SelectActivityError::NotAClient);
            },
        };
        let a = match find_key(&self.awards, award.as_str()) {
            Some(a) => a,
            None => {
                return Err(SelectActivityError::UnknownAward);
            },
        };
        let info = &self.awards[a].1.sections[section_index];
        if activity_index >= info.activities.len() {
            return Err(SelectActivityError::InvalidActivity);
        }
        let activity = info.activities[activity_index].0.clone();
        let ghost award_text = award@;
        let ghost activity_text = activity@;
        let section = Section::new(section_index, award, activity, user_id);
        assert(section@.input_data =~= Seq::empty());
        assert(section@.plan =~= Seq::empty());
        assert(section@.reflection =~= Seq::empty());
        assert(section@ == fresh_section(section_index, award_text, activity_text, user_id));
        match self.add_section(&section) {
            Ok(section_id) => {
                let mut user = user;
                user.set_section(section_index, section_id);
                let _ = self.user_db.insert(&user_id, &user);
                Ok(section_id)
            },
            Err(e) => Err(SelectActivityError::DbError(e)),
        }
    }

    /// Follows a password link: sets the password of the link's user (as one
    /// the user chose) and then removes the link (a failure there is
    /// ignored).
    pub fn change_password_by_link(&mut self, token: &LinkToken, password: &str) -> (res: Result<(), LinkActionError>)
        ensures
            final(self).user_db == old(self).user_db,
            final(self).org_db == old(self).org_db,
            final(self).section_db == old(self).section_db,
            !old(self).link_manager.links().contains_key(token.key_bytes()) ==> !(res is Ok),
            res is Ok ==> password_link_followed(*old(self), *final(self), *token, password@),
            res matches Err(LinkActionError::BadLink) ==> link_refused(old(self).link_manager.links(), *token, true),
            res matches Err(LinkActionError::NoUser) ==> old(self).link_manager.links().contains_key(token.key_bytes())
                && forall|e: LinkEntryView|
                LinkEntry::valid_view(e) && old(self).link_manager.links()[token.key_bytes()] == #[trigger] link_bytes(e)
                    ==> (password_link_user(e) is Some && old(self).user_db.stored(password_link_user(e)->Some_0.key_bytes()) is None),
            res matches Err(LinkActionError::Login(AuthError::NoUser)) ==> forall|e: LinkEntryView, u: UserView|
                LinkEntry::valid_view(e) && old(self).link_manager.links().contains_key(token.key_bytes())
                    && old(self).link_manager.links()[token.key_bytes()] == #[trigger] link_bytes(e) && User::valid_view(u)
                    && password_link_user(e) is Some && old(self).user_db.stored(password_link_user(e)->Some_0.key_bytes())
                    == Some(#[trigger] record_bytes::<User>(u)) ==> old(self).login_db.stored_text(u.email) is None,
            !(res matches Err(LinkActionError::Login(AuthError::IncorrectPassword))),
            !(res matches Err(LinkActionError::Register(_))),
            res matches Err(LinkActionError::DbError(e)) ==> e is DbError || unreadable::<LinkEntry>(
                old(self).link_manager.links(),
                token.key_bytes(),
            ) || exists|k: UserKey|
                #[trigger] password_link_for(old(self).link_manager.links(), *token, k) && unreadable::<User>(
                    old(self).user_db.contents(),
                    k.key_bytes(),
                ),
            res matches Err(LinkActionError::Login(AuthError::DbError(e))) ==> e is DbError || exists|k: UserKey, u: UserView|
                #[trigger] password_link_for(old(self).link_manager.links(), *token, k) && #[trigger] user_read_as(
                    old(self).user_db.contents(),
                    k,
                    u,
                ) && unreadable::<LoginEntry>(
                    old(self).login_db.logins(),
                    encode_utf8(u.email),
                ),
    {
        let ghost old_self = *self;
        match self.link_manager.fetch(token) {
            Ok(Some(entry)) => {
                let ghost e = entry@;
                proof {
                    let links = old_self.link_manager.links();
                    assert(links.contains_key(token.key_bytes()));
                    assert forall|r: LinkEntryView|
                        LinkEntry::valid_view(r) && #[trigger] record_bytes::<LinkEntry>(r) == links[token.key_bytes()]
                        implies r == e by {
                        assert(link_bytes(r) == record_bytes::<LinkEntry>(r));
                    }
                    assert(link_stored(links, *token, e));
                }
                if let Link::ChangePassword(user_id) = entry.link {
                    match self.user_db.fetch(&user_id) {
                        Ok(Some(user)) => {
                            let ghost u = user@;
                            match self.login_db.change_password(user.email.as_str(), password, false) {
                                Ok(_) => {
                                    let _ = self.link_manager.destroy_link(token);
                                    proof {
                                        assert(link_stored(old_self.link_manager.links(), *token, e));
                                        assert(decodes_to::<User>(old_self.user_db.stored(user_id.key_bytes())->Some_0, u));
                                        let l = choose|l: LoginEntryView|
                                            #[trigger] login::read_as(old_self.login_db.stored_text(u.email)->Some_0, l)
                                                && self.login_db.logins() == old_self.login_db.logins().insert(
                                                encode_utf8(u.email),
                                                login_bytes(LoginEntryView { password: password@, default_password: false, ..l }),
                                            );
                                        assert(password_link_followed(old_self, *self, *token, password@));
                                    }
                                    Ok(())
                                },
                                Err(err) => {
                                    proof {
                                        assert(read_value::<LinkEntry>(old_self.link_manager.links()[token.key_bytes()]) == Some(e));
                                        assert(password_link_user(e) == Some(user_id));
                                        assert(password_link_for(old_self.link_manager.links(), *token, user_id));
                                        assert(user_read_as(old_self.user_db.contents(), user_id, u));
                                    }
                                    Err(LinkActionError::Login(err))
                                },
                            }
                        },
                        Ok(None) => Err(LinkActionError::NoUser),
                        Err(err) => {
                            proof {
                                assert(read_value::<LinkEntry>(old_self.link_manager.links()[token.key_bytes()]) == Some(e));
                                assert(password_link_user(e) == Some(user_id));
                                assert(password_link_for(old_self.link_manager.links(), *token, user_id));
                            }
                            Err(LinkActionError::DbError(err))
                        },
                    }
                } else {
                    Err(LinkActionError::BadLink)
                }
            },
            Ok(None) => Err(LinkActionError::BadLink),
            Err(e) => Err(LinkActionError::DbError(e)),
        }
    }

    /// Follows an account link: creates the account the form describes, of
    /// the kind the link names, with the form's password, and then removes
    /// the link (a failure there is ignored).
    pub fn create_account_by_link(&mut self, token: &LinkToken, form: &CreateAccountForm) -> (res: Result<UserKey, LinkActionError>)
        ensures
            final(self).section_db == old(self).section_db,
            !old(self).link_manager.links().contains_key(token.key_bytes()) ==> !(res is Ok),
            res matches Ok(id) ==> is_random_uuid(id.0) && account_link_followed(*old(self), *final(self), *token, *form, id),
            res matches Err(LinkActionError::BadLink) ==> link_refused(old(self).link_manager.links(), *token, false),
            res matches Err(LinkActionError::Register(LoginEntryError::UsernameExists)) ==> old(
                self,
            ).login_db.logins().contains_key(encode_utf8(form.email@)),
            !(res matches Err(LinkActionError::Register(LoginEntryError::NotUnique))),
            !(res matches Err(LinkActionError::NoUser)),
            !(res matches Err(LinkActionError::Login(_))),
            res matches Err(LinkActionError::DbError(e)) ==> e is DbError || unreadable::<LinkEntry>(
                old(self).link_manager.links(),
                token.key_bytes(),
            ),
            res matches Err(LinkActionError::Register(LoginEntryError::DbError(e))) ==> e is DbError,
    {
        let ghost old_self = *self;
        match self.link_manager.fetch(token) {
            Ok(Some(entry)) => {
                let ghost e = entry@;
                proof {
                    let links = old_self.link_manager.links();
                    assert(links.contains_key(token.key_bytes()));
                    assert forall|r: LinkEntryView|
                        LinkEntry::valid_view(r) && #[trigger] record_bytes::<LinkEntry>(r) == links[token.key_bytes()]
                        implies r == e by {
                        assert(link_bytes(r) == record_bytes::<LinkEntry>(r));
                    }
                    assert(link_stored(links, *token, e));
                }
                if let Link::CreateUser(user_agent) = entry.link {
                    let user = form.to_user(user_agent);
                    match self.register_user(&user, form.password.as_str(), false) {
                        Ok(id) => {
                            let _ = self.link_manager.destroy_link(token);
                            proof {
                                assert(link_stored(old_self.link_manager.links(), *token, e));
                                assert(account_link_followed(old_self, *self, *token, *form, id));
                            }
                            Ok(id)
                        },
                        Err(e) => Err(LinkActionError::Register(e)),
                    }
                } else {
                    Err(LinkActionError::BadLink)
                }
            },
            Ok(None) => Err(LinkActionError::BadLink),
            Err(e) => Err(LinkActionError::DbError(e)),
        }
    }

    /// Issues a link to change the password of the account logged in under
    /// `username`, lasting `timeout` nanoseconds: `Ok(None)` when no login is
    /// stored under the name.
    pub fn password_reset_link(&mut self, username: &str, timeout: u128) -> (res: Result<Option<LinkToken>, StoreError>)
        requires
            timeout < MAX_INSTANT,
        ensures
            final(self).login_db == old(self).login_db,
            final(self).user_db == old(self).user_db,
            final(self).org_db == old(self).org_db,
            final(self).section_db == old(self).section_db,
            final(self).auth_manager == old(self).auth_manager,
            res matches Ok(None) ==> old(self).login_db.stored(username) is None && final(self).link_manager
                == old(self).link_manager,
            res matches Ok(Some(t)) ==> is_random_uuid(t.0) && old(self).login_db.stored(username) is Some && exists|
                e: LoginEntryView,
                now: u128,
            |
                login::read_as(old(self).login_db.stored(username)->Some_0, e) && now < MAX_INSTANT
                    && final(self).link_manager.links() == old(self).link_manager.links().insert(
                    t.key_bytes(),
                    link_bytes(#[trigger] link_made_at(LinkView::ChangePassword(e.user_id), now, timeout)),
                ),
            old(self).login_db.stored(username) is Some && is_record_bytes::<LoginEntry>(
                old(self).login_db.stored(username)->Some_0,
            ) ==> !(res matches Ok(None)),
            res matches Err(e) ==> e is DbError || (old(self).login_db.stored(username) matches Some(
                b,
            ) && !is_record_bytes::<LoginEntry>(b)),
    {
        match self.login_db.db().fetch(username) {
            Ok(Some(entry)) => {
                let ghost e = entry@;
                proof {
                    assert(login::read_as(self.login_db.stored(username)->Some_0, e));
                }
                let link = Link::ChangePassword(entry.user_id);
                let ghost links_before = self.link_manager.links();
                match self.link_manager.create_link(link, timeout) {
                    Ok(token) => {
                        proof {
                            let now = choose|now: u128|
                                now < MAX_INSTANT && #[trigger] self.link_manager.links() == links_before.insert(
                                    token.key_bytes(),
                                    link_bytes(link_made_at(link@, now, timeout)),
                                );
                            assert(link@ == LinkView::ChangePassword(e.user_id));
                            assert(link_made_at(LinkView::ChangePassword(e.user_id), now, timeout) == link_made_at(link@, now, timeout));
                        }
                        Ok(Some(token))
                    },
                    Err(err) => Err(err),
                }
            },
            Ok(None) => Ok(None),
            Err(err) => Err(err),
        }
    }

    /// The row of one listed section, if it can be shown, and whether the
    /// stores were read without failure.
    fn row_of(&self, section_id: SectionKey) -> (res: (Option<SectionRow>, bool))
        ensures
            res.0 matches Some(r) ==> r.section_id == section_id && row_found(*self, r),
            res.1 && res.0 is None ==> !row_available(*self, section_id),
            sections_readable(*self, seq![section_id]) && res.0 is Some ==> row_available(*self, section_id),
    {
        let ghost sb = self.section_db.stored(section_id.key_bytes());
        let fetched = self.section_db.fetch(&section_id);
        let ghost fetched_section = fetched;
        let (found, answered) = read_outcome(fetched);
        let section = match found {
            Some(s) => s,
            None => return (None, answered),
        };
        proof {
            assert(fetched_section matches Ok(Some(s)) && s == section);
            assert forall|r: SectionRow|
                r.section_id == section_id && #[trigger] row_found(*self, r) && is_record_bytes::<Section>(
                    sb->Some_0,
                ) implies r.section@ == section@ by {
                let r0 = choose|r0: SectionView| Section::valid_view(r0) && #[trigger] record_bytes::<Section>(r0) == sb->Some_0;
            }
        }
        let ghost ub = self.user_db.stored(section.user_id.key_bytes());
        let fetched = self.user_db.fetch(&section.user_id);
        let ghost fetched_user = fetched;
        let (found, answered) = read_outcome(fetched);
        let user = match found {
            Some(u) => u,
            None => return (None, answered),
        };
        proof {
            assert(fetched_user matches Ok(Some(u)) && u == user);
        }
        let ghost s0 = section;
        let ghost u0 = user;
        let row = section_row(section_id, section, user, &self.awards);
        proof {
            if row is Some {
                assert(row_found(*self, row->Some_0));
                if sections_readable(*self, seq![section_id]) {
                    assert(seq![section_id][0] == section_id);
                    let r = choose|r: SectionView| Section::valid_view(r) && #[trigger] record_bytes::<Section>(r) == sb->Some_0;
                    assert(r == s0@);
                    assert(row_available(*self, section_id));
                }
            }
        }
        (row, true)
    }

    /// The rows of the listed sections that can be shown, those found with
    /// their pupil, award and activity; and whether the
    /// stores were read without failure, in which case no section that can
    /// be shown is left out.
    #[verifier::spinoff_prover]
    #[verifier::rlimit(40)]
    pub fn section_rows(&self, ids: &Vec<SectionKey>) -> (res: (Vec<SectionRow>, bool))
        ensures
            res.0@.len() <= ids@.len(),
            !res.1 ==> ids@.len() > 0,
            forall|i: int| 0 <= i < res.0@.len() ==> #[trigger] row_found(*self, res.0@[i]),
            forall|i: int| 0 <= i < res.0@.len() ==> ids@.contains(#[trigger] res.0@[i].section_id),
            res.1 ==> forall|i: int|
                0 <= i < ids@.len() && #[trigger] row_available(*self, ids@[i]) ==> exists|j: int|
                    0 <= j < res.0@.len() && res.0@[j].section_id == ids@[i],
            res.1 && sections_readable(*self, ids@) ==> section_ids(res.0@) == ids@.filter(
                |k: SectionKey| row_available(*self, k),
            ),
    {
        let ghost pred = |k: SectionKey| row_available(*self, k);
        let mut rows: Vec<SectionRow> = Vec::new();
        let mut complete = true;
        let mut i: usize = 0;
        let ghost mut shown: Seq<SectionKey> = Seq::empty();
        while i < ids.len()
            invariant
                i <= ids@.len(),
                rows@.len() <= i,
                complete || i > 0,
                shown.len() == rows@.len(),
                forall|q: int| 0 <= q < rows@.len() ==> shown[q] == #[trigger] rows@[q].section_id,
                forall|q: int| 0 <= q < rows@.len() ==> #[trigger] row_found(*self, rows@[q]),
                forall|q: int| 0 <= q < rows@.len() ==> ids@.contains(#[trigger] rows@[q].section_id),
                complete ==> forall|q: int| 0 <= q < i && #[trigger] row_available(*self, ids@[q]) ==> shown.contains(ids@[q]),
                pred == (|k: SectionKey| row_available(*self, k)),
                complete && sections_readable(*self, ids@) ==> shown == ids@.take(i as int).filter(pred),
            decreases ids@.len() - i,
        {
            let section_id = ids[i];
            proof {
                if sections_readable(*self, ids@) {
                    assert forall|q: int| 0 <= q < seq![section_id].len() implies (#[trigger] self.section_db.stored(
                        seq![section_id][q].key_bytes(),
                    ) matches Some(b) ==> is_record_bytes::<Section>(b) && forall|s: SectionView|
                        Section::valid_view(s) && #[trigger] record_bytes::<Section>(s) == b ==> (self.user_db.stored(
                            s.user_id.key_bytes(),
                        ) matches Some(ub) ==> is_record_bytes::<User>(ub))) by {
                        assert(seq![section_id][q] == ids@[i as int]);
                    }
                }
                assert(ids@.take(i + 1) =~= ids@.take(i as int).push(section_id));
                ids@.take(i as int).lemma_filter_push(section_id, pred);
            }
            let (row, read) = self.row_of(section_id);
            if !read {
                complete = false;
            }
            match row {
                Some(row) => {
                    proof {
                        assert(ids@[i as int] == row.section_id);
                        assert(ids@.contains(row.section_id));
                        assert forall|q: int| 0 <= q < i + 1 && shown.contains(ids@[q]) || q == i implies #[trigger] shown.push(
                            section_id,
                        ).contains(ids@[q]) by {
                            if q == i {
                                assert(shown.push(section_id)[shown.len() as int] == ids@[q]);
                            } else {
                                let j = choose|j: int| 0 <= j < shown.len() && shown[j] == ids@[q];
                                assert(shown.push(section_id)[j] == ids@[q]);
                            }
                        }
                        shown = shown.push(section_id);
                    }
                    rows.push(row);
                },
                None => {},
            }
            i = i + 1;
        }
        proof {
            if complete {
                assert forall|q: int| 0 <= q < ids@.len() && #[trigger] row_available(*self, ids@[q]) implies exists|j: int|
                    0 <= j < rows@.len() && rows@[j].section_id == ids@[q] by {
                    let j = choose|j: int| 0 <= j < shown.len() && shown[j] == ids@[q];
                    assert(rows@[j].section_id == shown[j]);
                }
            }
            assert(ids@.take(ids@.len() as int) =~= ids@);
            assert(section_ids(rows@) =~= shown);
        }
        (rows, complete)
    }

    /// The keys of the stored sections marked outstanding, and whether the
    /// store yielded every entry, in which case every section stored under
    /// an identifier and marked outstanding is among them.
    pub fn outstanding_section_ids(&self) -> (res: (Vec<SectionKey>, bool))
        ensures
            forall|i: int|
                0 <= i < res.0@.len() ==> #[trigger] outstanding_at(self.section_db.contents(), be_bytes(res.0@[i].0)),
            res.1 ==> forall|k: Seq<u8>|
                k.len() == 16 && #[trigger] stored_outstanding(self.section_db.contents(), k) ==> exists|i: int|
                    0 <= i < res.0@.len() && be_bytes(res.0@[i].0) == k,
    {
        let (mut entries, complete) = self.section_db.entries();
        let ghost all = entries@;
        let ghost c = self.section_db.contents();
        assert forall|a: int| 0 <= a < all.len() implies #[trigger] c.contains_key(all[a].0@) && match all[a].1 {
            Some(v) => forall|r: SectionView|
                Section::valid_view(r) && #[trigger] record_bytes::<Section>(r) == c[all[a].0@] ==> v@ == r,
            None => !is_record_bytes::<Section>(c[all[a].0@]),
        } by {
            assert(self.section_db.contents().contains_key(entries@[a].0@));
        }
        let mut ids: Vec<SectionKey> = Vec::new();
        let ghost mut n: int = 0;
        let ghost mut idx: Seq<int> = Seq::empty();
        while entries.len() > 0
            invariant
                0 <= n <= all.len(),
                entries@ == all.skip(n),
                c == self.section_db.contents(),
                forall|a: int|
                    0 <= a < all.len() ==> #[trigger] c.contains_key(all[a].0@) && match all[a].1 {
                        Some(v) => forall|r: SectionView|
                            Section::valid_view(r) && #[trigger] record_bytes::<Section>(r) == c[all[a].0@] ==> v@ == r,
                        None => !is_record_bytes::<Section>(c[all[a].0@]),
                    },
                forall|q: int| 0 <= q < ids@.len() ==> #[trigger] outstanding_at(c, be_bytes(ids@[q].0)),
                idx.len() == ids@.len(),
                forall|q: int| 0 <= q < ids@.len() ==> 0 <= #[trigger] idx[q] < n && be_bytes(ids@[q].0) == all[idx[q]].0@,
                forall|a: int|
                    0 <= a < n && all[a].0@.len() == 16 && #[trigger] stored_outstanding(c, all[a].0@) ==> exists|q: int|
                        0 <= q < ids@.len() && idx[q] == a,
            decreases entries@.len(),
        {
            let (key, value) = entries.remove(0);
            proof {
                assert(all.skip(n)[0] == all[n]);
                assert(key@ == all[n].0@);
                if all[n].0@.len() == 16 && stored_outstanding(c, all[n].0@) {
                    let s = choose|s: SectionView| Section::valid_view(s) && #[trigger] record_bytes::<Section>(s) == c[all[n].0@]
                        && s.outstanding;
                    assert(value matches Some(v) && v@ == s);
                }
            }
            let ghost before = ids@;
            let ghost old_idx = idx;
            if let Some(section) = value {
                if section.outstanding {
                    if let Some(section_id) = SectionKey::from_key_bytes(&key) {
                        proof {
                            assert(c.contains_key(all[n].0@));
                            assert(decodes_to::<Section>(c[be_bytes(section_id.0)], section@));
                        }
                        ids.push(section_id);
                        proof {
                            idx = idx.push(n);
                            assert(outstanding_at(c, be_bytes(section_id.0)));
                            assert forall|q: int| 0 <= q < ids@.len() implies #[trigger] outstanding_at(c, be_bytes(ids@[q].0)) by {
                                if q < before.len() {
                                    assert(ids@[q] == before[q]);
                                }
                            }
                            assert forall|q: int| 0 <= q < ids@.len() implies 0 <= #[trigger] idx[q] < n + 1 && be_bytes(
                                ids@[q].0,
                            ) == all[idx[q]].0@ by {
                                if q < before.len() {
                                    assert(ids@[q] == before[q]);
                                    assert(idx[q] == old_idx[q]);
                                }
                            }
                        }
                    }
                }
            }
            proof {
                assert forall|a: int|
                    0 <= a < n + 1 && all[a].0@.len() == 16 && #[trigger] stored_outstanding(c, all[a].0@) implies exists|q: int|
                    0 <= q < ids@.len() && idx[q] == a by {
                    if a == n {
                        assert(idx[idx.len() - 1] == a);
                    } else {
                        let q = choose|q: int| 0 <= q < old_idx.len() && old_idx[q] == a;
                        assert(idx[q] == a);
                    }
                }
                assert(entries@ =~= all.skip(n + 1));
                n = n + 1;
            }
        }
        proof {
            if complete {
                assert forall|k: Seq<u8>| k.len() == 16 && #[trigger] stored_outstanding(c, k) implies exists|i: int|
                    0 <= i < ids@.len() && be_bytes(ids@[i].0) == k by {
                    let a = choose|a: int| 0 <= a < all.len() && all[a].0@ == k;
                    assert(stored_outstanding(c, all[a].0@));
                    let q = choose|q: int| 0 <= q < ids@.len() && idx[q] == a;
                    assert(be_bytes(ids@[q].0) == all[idx[q]].0@);
                }
            }
        }
        let res = (ids, complete);
        proof {
            assert forall|k: Seq<u8>| res.1 && k.len() == 16 && #[trigger] stored_outstanding(c, k) implies exists|i: int|
                0 <= i < res.0@.len() && be_bytes(res.0@[i].0) == k by {
                let i = choose|i: int| 0 <= i < ids@.len() && be_bytes(ids@[i].0) == k;
                assert(res.0@[i] == ids@[i]);
            }
        }
        res
    }
}

/// A user who joins an organisation and then leaves it leaves it as it was:
/// a pupil gets the credit back, a teacher's place is freed.
pub proof fn law_join_then_leave(o: OrgView, agent: AgentView, user_id: UserKey)
    requires
        member_org(agent) is Some,
        may_join(o, agent, user_id),
    ensures
        may_leave(joined(o, agent, user_id), agent),
        left(joined(o, agent, user_id), agent, user_id) == o,
{
    match agent {
        AgentView::Client { .. } => {
            law_admit_then_release_client(o, user_id);
        },
        _ => {
            lemma_without_absent(o.associates, user_id);
            o.associates.lemma_filter_push(user_id, other_than(user_id));
            assert(left(joined(o, agent, user_id), agent, user_id).associates =~= o.associates);
        },
    }
}

/// Joining keeps an organisation's seats: a pupil who joins takes one
/// credit, so the pupils and the credits left add up as before; a teacher
/// who joins leaves both as they were.
pub proof fn law_join_keeps_seats(o: OrgView, agent: AgentView, user_id: UserKey)
    requires
        member_org(agent) is Some,
        may_join(o, agent, user_id),
    ensures
        joined(o, agent, user_id).clients.len() + joined(o, agent, user_id).credits == o.clients.len() + o.credits,
        agent is Client ==> joined(o, agent, user_id).clients == o.clients.push(user_id),
        !(agent is Client) ==> joined(o, agent, user_id).clients == o.clients && joined(o, agent, user_id).credits
            == o.credits,
{
}

/// An account just created logs in with its password, to its user as it was
/// stored; with any other password the login is refused as incorrect (when
/// the stores can be read).
pub proof fn law_registered_account_logs_in(
    d0: SharedData,
    d1: SharedData,
    d2: SharedData,
    user: UserView,
    password: Seq<char>,
    default_password: bool,
    id: UserKey,
    attempt: Seq<char>,
    timeout: u128,
    res: Result<AuthContext, AuthError>,
)
    requires
        User::valid_view(user),
        registered(d0, d1, user, password, default_password, id),
        login_outcome(d1, d2, user.email, attempt, timeout, res),
        !(res matches Err(AuthError::DbError(_))),
    ensures
        attempt == password ==> (res matches Ok(ctx) && ctx.user_id == id && ctx.user@ == user),
        attempt != password ==> res matches Err(AuthError::IncorrectPassword),
{
    let e = new_login(password, id, default_password);
    assert(d1.login_db.stored_text(user.email) == Some(login_bytes(e)));
    assert(d1.user_db.stored(id.key_bytes()) == Some(record_bytes::<User>(user)));
    match res {
        Ok(ctx) => {
            assert(e.password == attempt && e.user_id == ctx.user_id);
        },
        Err(AuthError::NoUser) => {
            if !authenticated(d1.login_db.stored_text(user.email), attempt, Err(AuthError::NoUser)) {
                let u = choose|u: UserKey|
                    #[trigger] authenticated(d1.login_db.stored_text(user.email), attempt, Ok::<UserKey, AuthError>(u))
                        && d1.user_db.stored(u.key_bytes()) is None;
                assert(e.user_id == u);
            }
        },
        Err(AuthError::IncorrectPassword) => {
            assert(e.password != attempt);
        },
        Err(AuthError::DbError(_)) => {},
    }
}

/// Once a password link was followed with a new password, the account of the
/// link's user (whose login names that user) logs in with the new password,
/// to the user as stored, and with no other password (when the stores can
/// be read).
pub proof fn law_password_link_then_login(
    d0: SharedData,
    d1: SharedData,
    d2: SharedData,
    token: LinkToken,
    password: Seq<char>,
    link: LinkEntryView,
    user_id: UserKey,
    user: UserView,
    entry: LoginEntryView,
    attempt: Seq<char>,
    timeout: u128,
    res: Result<AuthContext, AuthError>,
)
    requires
        LinkEntry::valid_view(link),
        link.link == LinkView::ChangePassword(user_id),
        d0.link_manager.links().contains_key(token.key_bytes()),
        d0.link_manager.links()[token.key_bytes()] == link_bytes(link),
        User::valid_view(user),
        d0.user_db.stored(user_id.key_bytes()) == Some(record_bytes::<User>(user)),
        d0.login_db.stored_text(user.email) == Some(login_bytes(entry)),
        entry.user_id == user_id,
        password_link_followed(d0, d1, token, password),
        d1.user_db == d0.user_db,
        login_outcome(d1, d2, user.email, attempt, timeout, res),
        !(res matches Err(AuthError::DbError(_))),
    ensures
        attempt == password ==> (res matches Ok(ctx) && ctx.user_id == user_id && ctx.user@ == user),
        attempt != password ==> res matches Err(AuthError::IncorrectPassword),
{
    let (e, u, l) = choose|e: LinkEntryView, u: UserView, l: LoginEntryView|
        #[trigger] link_stored(d0.link_manager.links(), token, e) && #[trigger] login::read_as(
            d0.login_db.stored_text(u.email)->Some_0,
            l,
        ) && match e.link {
            LinkView::ChangePassword(user_id) => {
                &&& d0.user_db.stored(user_id.key_bytes()) is Some
                &&& decodes_to::<User>(d0.user_db.stored(user_id.key_bytes())->Some_0, u)
                &&& d0.login_db.stored_text(u.email) is Some
                &&& d1.login_db.logins() == d0.login_db.logins().insert(
                    encode_utf8(u.email),
                    login_bytes(LoginEntryView { password, default_password: false, ..l }),
                )
            },
            _ => false,
        };
    assert(e == link);
    assert(u == user);
    assert(l == entry);
    let changed = LoginEntryView { password, default_password: false, ..entry };
    assert(d1.login_db.stored_text(user.email) == Some(login_bytes(changed)));
    match res {
        Ok(ctx) => {
            assert(changed.password == attempt && changed.user_id == ctx.user_id);
        },
        Err(AuthError::NoUser) => {
            if !authenticated(d1.login_db.stored_text(user.email), attempt, Err(AuthError::NoUser)) {
                let k = choose|k: UserKey|
                    #[trigger] authenticated(d1.login_db.stored_text(user.email), attempt, Ok::<UserKey, AuthError>(k))
                        && d1.user_db.stored(k.key_bytes()) is None;
                assert(changed.user_id == k);
            }
        },
        Err(AuthError::IncorrectPassword) => {
            assert(changed.password != attempt);
        },
        Err(AuthError::DbError(_)) => {},
    }
}

/// Once an account link was followed with a form, the new account logs in
/// with the form's password, to its new user, and with no other password
/// (when the stores can be read and the link was stored as written).
pub proof fn law_account_link_then_login(
    d0: SharedData,
    d1: SharedData,
    d2: SharedData,
    token: LinkToken,
    form: CreateAccountForm,
    id: UserKey,
    link: LinkEntryView,
    attempt: Seq<char>,
    timeout: u128,
    res: Result<AuthContext, AuthError>,
)
    requires
        LinkEntry::valid_view(link),
        d0.link_manager.links().contains_key(token.key_bytes()),
        d0.link_manager.links()[token.key_bytes()] == link_bytes(link),
        account_link_followed(d0, d1, token, form, id),
        login_outcome(d1, d2, form.email@, attempt, timeout, res),
        !(res matches Err(AuthError::DbError(_))),
    ensures
        attempt == form.password@ ==> (res matches Ok(ctx) && ctx.user_id == id && (link.link matches LinkView::CreateUser(
            agent,
        ) && ctx.user@ == crate::forms::new_user(form.email@, form.forename@, form.surname@, agent))),
        attempt != form.password@ ==> res matches Err(AuthError::IncorrectPassword),
{
    let e = choose|e: LinkEntryView|
        #[trigger] link_stored(d0.link_manager.links(), token, e) && match e.link {
            LinkView::CreateUser(agent) => {
                &&& !d0.login_db.logins().contains_key(encode_utf8(form.email@))
                &&& d1.user_db.contents() == d0.user_db.contents().insert(
                    id.key_bytes(),
                    record_bytes::<User>(crate::forms::new_user(form.email@, form.forename@, form.surname@, agent)),
                )
                &&& d1.login_db.logins() == d0.login_db.logins().insert(
                    encode_utf8(form.email@),
                    login_bytes(new_login(form.password@, id, false)),
                )
            },
            _ => false,
        };
    assert(e == link);
    let l = new_login(form.password@, id, false);
    assert(d1.login_db.stored_text(form.email@) == Some(login_bytes(l)));
    if let LinkView::CreateUser(agent) = link.link {
        let user = crate::forms::new_user(form.email@, form.forename@, form.surname@, agent);
        assert(User::valid_view(user));
        assert(d1.user_db.stored(id.key_bytes()) == Some(record_bytes::<User>(user)));
        match res {
            Ok(ctx) => {
                assert(l.password == attempt && l.user_id == ctx.user_id);
            },
            Err(AuthError::NoUser) => {
                if !authenticated(d1.login_db.stored_text(form.email@), attempt, Err(AuthError::NoUser)) {
                    let k = choose|k: UserKey|
                        #[trigger] authenticated(d1.login_db.stored_text(form.email@), attempt, Ok::<UserKey, AuthError>(k))
                            && d1.user_db.stored(k.key_bytes()) is None;
                    assert(l.user_id == k);
                }
            },
            Err(AuthError::IncorrectPassword) => {
                assert(l.password != attempt);
            },
            Err(AuthError::DbError(_)) => {},
        }
    }
}

/// The session a login starts belongs to the logged-in user: a check of its
/// token that finds someone finds that user, and one that finds nobody while
/// the user is stored was made once the session had expired.
pub proof fn law_login_session(
    d0: SharedData,
    d1: SharedData,
    username: Seq<char>,
    password: Seq<char>,
    timeout: u128,
    ctx0: AuthContext,
    found: Option<AuthContext>,
    push_expiry: bool,
)
    requires
        timeout < MAX_INSTANT,
        login_outcome(d0, d1, username, password, timeout, Ok(ctx0)),
        found matches Some(ctx) ==> context_found(d1, ctx0.auth_token, ctx),
        found is None ==> nobody_found(d1, ctx0.auth_token, push_expiry),
        found is None ==> d1.user_db.stored(ctx0.user_id.key_bytes()) is Some,
    ensures
        found matches Some(ctx) ==> ctx.user_id == ctx0.user_id,
        found is None ==> exists|start: u128, now: u128|
            start < MAX_INSTANT && now < MAX_INSTANT && start + timeout <= now
                && d1.auth_manager.sessions()[ctx0.auth_token.key_bytes()] == session_bytes(
                AuthSession::started_at(ctx0.user_id, start, timeout),
            ) && #[trigger] AuthSession::started_at(ctx0.user_id, start, timeout).check_at(now, push_expiry) is Expired,
{
    let start = choose|now: u128|
        now < MAX_INSTANT && #[trigger] d1.auth_manager.sessions() == d0.auth_manager.sessions().insert(
            ctx0.auth_token.key_bytes(),
            session_bytes(AuthSession::started_at(ctx0.user_id, now, timeout)),
        );
    let s = AuthSession::started_at(ctx0.user_id, start, timeout);
    assert(d1.auth_manager.sessions()[ctx0.auth_token.key_bytes()] == session_bytes(s));
    law_started_session_lifetime(ctx0.user_id, start, timeout, 0, push_expiry);
    match found {
        Some(ctx) => {
            assert(ctx.user_id == s.user());
        },
        None => {
            let now = choose|now: u128| now < MAX_INSTANT && #[trigger] s.check_at(now, push_expiry) is Expired;
            law_started_session_lifetime(ctx0.user_id, start, timeout, now, push_expiry);
            assert(start + timeout <= now);
        },
    }
}

/// A user who joins an organisation and then leaves it, as the
/// organisations' records change when an account is created and deleted
/// with no failed store operation, leaves the organisation's record as it
/// was.
pub proof fn law_join_then_leave_records(
    c0: Map<Seq<u8>, Seq<u8>>,
    c1: Map<Seq<u8>, Seq<u8>>,
    c2: Map<Seq<u8>, Seq<u8>>,
    a: AgentView,
    u: UserKey,
    o: OrgView,
)
    requires
        member_org(a) is Some,
        c0.contains_key(member_org(a)->Some_0.key_bytes()),
        Org::valid_view(o),
        c0[member_org(a)->Some_0.key_bytes()] == record_bytes::<Org>(o),
        may_join(o, a, u),
        join_outcome(c0, c1, a, u),
        leave_outcome(c1, c2, a, u),
    ensures
        c2 == c0,
{
    let kb = member_org(a)->Some_0.key_bytes();
    assert(c1 == c0.insert(kb, record_bytes::<Org>(joined(o, a, u))));
    law_join_then_leave(o, a, u);
    let j = joined(o, a, u);
    assert(Org::valid_view(j));
    assert(c1[kb] == record_bytes::<Org>(j));
    assert(c2 == c1.insert(kb, record_bytes::<Org>(left(j, a, u))));
    assert(c2 =~= c0);
}

/// An account created under a key no user had and then deleted, as
/// `delete_user` changes the stores when none of its writes fails, leaves
/// the users and the logins as they were.
pub proof fn law_register_then_delete_accounts(
    d0: SharedData,
    d1: SharedData,
    d2: SharedData,
    user: UserView,
    password: Seq<char>,
    default_password: bool,
    id: UserKey,
)
    requires
        registered(d0, d1, user, password, default_password, id),
        !d0.user_db.contents().contains_key(id.key_bytes()),
        d2.user_db.contents() == d1.user_db.contents().remove(id.key_bytes()),
        d2.login_db.logins() == d1.login_db.logins().remove(encode_utf8(user.email)),
    ensures
        d2.user_db.contents() == d0.user_db.contents(),
        d2.login_db.logins() == d0.login_db.logins(),
{
    assert(d2.user_db.contents() =~= d0.user_db.contents());
    assert(d2.login_db.logins() =~= d0.login_db.logins());
}

} // verus!
