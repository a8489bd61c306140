use vstd::prelude::*;
use crate::codec::{Fields, Record, is_record_bytes, lists, read_value, record_bytes};
use crate::db::{Database, StoreError, StoreKey};
use crate::dir;
use crate::keys::{AuthToken, OrgKey, UserKey, is_random_uuid};
use crate::org::Org;
use crate::section::texts;
use crate::time::{self, Clock, MAX_INSTANT, read_once};
use crate::user::User;
use crate::util;

verus! {

/// A login session: whose it is, until when it lasts and by how much each
/// use extends it. Times are nanoseconds since the UNIX epoch.
#[derive(Debug, Clone, Copy, PartialEq, Eq, Structural)]
pub struct AuthSession {
    user_id: UserKey,
    expiry: u128,
    timeout: u128,
}

impl View for AuthSession {
    type V = AuthSession;

    open spec fn view(&self) -> AuthSession {
        *self
    }
}

/// The outcome of checking a session.
#[derive(Debug, Clone, Copy, PartialEq, Eq, Structural)]
pub enum SessionCheck {
    /// The session is live: it is the user's, and `refreshed` is the
    /// session to store back when its expiry was pushed.
    Valid { user_id: UserKey, refreshed: Option<AuthSession> },
    /// The session has expired.
    Expired,
}

impl AuthSession {
    /// The user of the session.
    pub closed spec fn user(self) -> UserKey {
        self.user_id
    }

    /// The instant the session expires.
    pub closed spec fn expires(self) -> u128 {
        self.expiry
    }

    /// The extension each use gives the session.
    pub closed spec fn extension(self) -> u128 {
        self.timeout
    }

    /// The session a user starts at `now` for `timeout`.
    pub closed spec fn started_at(user_id: UserKey, now: u128, timeout: u128) -> AuthSession {
        AuthSession { user_id, expiry: (now + timeout) as u128, timeout }
    }

    /// What checking the session at `now` gives: live until its expiry, and
    /// then, when asked, pushed to `now` plus its extension (capped at the
    /// largest instant).
    pub closed spec fn check_at(self, now: u128, push_expiry: bool) -> SessionCheck {
        if self.expiry > now {
            SessionCheck::Valid {
                user_id: self.user_id,
                refreshed: if push_expiry {
                    Some(
                        AuthSession {
                            expiry: if now + self.timeout <= u128::MAX {
                                (now + self.timeout) as u128
                            } else {
                                u128::MAX
                            },
                            ..self
                        },
                    )
                } else {
                    None
                },
            }
        } else {
            SessionCheck::Expired
        }
    }

    /// The session a user starts at `now`, lasting `timeout`.
    pub fn started(user_id: UserKey, now: u128, timeout: u128) -> (res: AuthSession)
        requires
            now < MAX_INSTANT,
            timeout < MAX_INSTANT,
        ensures
            res == AuthSession::started_at(user_id, now, timeout),
            res.user() == user_id,
            res.expires() == now + timeout,
            res.extension() == timeout,
    {
        AuthSession { user_id, expiry: now + timeout, timeout }
    }

    /// Checks the session at `now`: it is live while its expiry is later
    /// than `now`; with `push_expiry`, a live session is extended to `now`
    /// plus its timeout.
    pub fn check(&self, now: u128, push_expiry: bool) -> (res: SessionCheck)
        ensures
            res == self.check_at(now, push_expiry),
    {
        if self.expiry > now {
            let refreshed = if push_expiry {
                Some(AuthSession { expiry: now.saturating_add(self.timeout), ..*self })
            } else {
                None
            };
            SessionCheck::Valid { user_id: self.user_id, refreshed }
        } else {
            SessionCheck::Expired
        }
    }

    /// Whether the session is still live at `now`.
    pub fn is_live(&self, now: u128) -> (res: bool)
        ensures
            res == (self.expires() > now),
    {
        self.expiry > now
    }
}

/// A session is live strictly before its expiry and expired from then on;
/// a live session belongs to its user.
pub proof fn law_session_live_until_expiry(s: AuthSession, now: u128, push: bool)
    ensures
        (s.check_at(now, push) is Valid) <==> now < s.expires(),
        s.check_at(now, push) matches SessionCheck::Valid { user_id, .. } ==> user_id == s.user(),
{
}

/// A session started at `start` for `timeout` is the user's, live at every
/// instant before `start + timeout` and expired at every instant from then
/// on.
pub proof fn law_started_session_lifetime(user_id: UserKey, start: u128, timeout: u128, now: u128, push: bool)
    requires
        start < MAX_INSTANT,
        timeout < MAX_INSTANT,
    ensures
        AuthSession::started_at(user_id, start, timeout).user() == user_id,
        (AuthSession::started_at(user_id, start, timeout).check_at(now, push) is Valid) <==> now < start
            + timeout,
        (AuthSession::started_at(user_id, start, timeout).check_at(now, push) is Expired) <==> start + timeout
            <= now,
{
}

/// Checking a live session with a push extends it to `now` plus its
/// extension and keeps its user and extension; without a push nothing is
/// to be stored.
pub proof fn law_refresh(s: AuthSession, now: u128)
    requires
        now < MAX_INSTANT,
        s.extension() < MAX_INSTANT,
        now < s.expires(),
    ensures
        s.check_at(now, true) matches SessionCheck::Valid { refreshed: Some(r), .. } && r.user() == s.user()
            && r.extension() == s.extension() && r.expires() == now + s.extension(),
        s.check_at(now, false) matches SessionCheck::Valid { refreshed: None, .. },
{
}

/// A refreshed session is live at the instant of its refresh, as long as
/// its extension is not zero.
pub proof fn law_refreshed_is_live(s: AuthSession, now: u128, later: u128)
    requires
        now < MAX_INSTANT,
        s.extension() < MAX_INSTANT,
        now < s.expires(),
        now <= later < now + s.extension(),
    ensures
        s.check_at(now, true) matches SessionCheck::Valid { refreshed: Some(r), .. } && r.check_at(later, false) is Valid,
{
}

impl Record for AuthSession {
    closed spec fn field_values(v: AuthSession) -> Fields {
        (seq![v.user_id.0, v.expiry, v.timeout], Seq::empty(), Seq::empty())
    }

    closed spec fn from_field_values(f: Fields) -> Option<AuthSession> {
        let (nums, ts, ls) = f;
        if nums.len() == 3 && ts.len() == 0 && ls.len() == 0 {
            Some(AuthSession { user_id: UserKey(nums[0]), expiry: nums[1], timeout: nums[2] })
        } else {
            None
        }
    }

    closed spec fn valid_view(v: AuthSession) -> bool {
        true
    }

    proof fn lemma_valid_view(&self) {
    }

    proof fn lemma_fields_round_trip(v: AuthSession) {
    }

    fn to_fields(&self) -> (res: (Vec<u128>, Vec<String>, Vec<Vec<u128>>)) {
        let mut nums: Vec<u128> = Vec::new();
        nums.push(self.user_id.0);
        nums.push(self.expiry);
        nums.push(self.timeout);
        let ts: Vec<String> = Vec::new();
        let ls: Vec<Vec<u128>> = Vec::new();
        assert(nums@ =~= seq![self.user_id.0, self.expiry, self.timeout]);
        assert(texts(ts@) =~= Seq::<Seq<char>>::empty());
        assert(lists(ls@) =~= Seq::<Seq<u128>>::empty());
        (nums, ts, ls)
    }

    fn from_fields(nums: &Vec<u128>, ts: &Vec<String>, ls: &Vec<Vec<u128>>) -> (res: Option<Self>) {
        if nums.len() == 3 && ts.len() == 0 && ls.len() == 0 {
            Some(AuthSession { user_id: UserKey(nums[0]), expiry: nums[1], timeout: nums[2] })
        } else {
            None
        }
    }
}

/// The sessions, by token.
pub type AuthDb = Database<AuthToken, AuthSession>;

/// The bytes a session is stored as.
pub open spec fn session_bytes(s: AuthSession) -> Seq<u8> {
    record_bytes::<AuthSession>(s)
}

/// Whether `after` is `before` with the session `s`, checked at `now` with
/// a push, stored back refreshed under the token.
pub open spec fn refreshed_stored(
    before: Map<Seq<u8>, Seq<u8>>,
    after: Map<Seq<u8>, Seq<u8>>,
    token: AuthToken,
    s: AuthSession,
    now: u128,
) -> bool {
    match s.check_at(now, true) {
        SessionCheck::Valid { refreshed: Some(r), .. } => after == before.insert(token.key_bytes(), session_bytes(r)),
        _ => false,
    }
}

/// Whether `after` is `before` with exactly the sessions that expired by
/// `now` removed: nothing else changed, and a session stays exactly when it
/// is live at `now`.
pub open spec fn swept_at(before: Map<Seq<u8>, Seq<u8>>, after: Map<Seq<u8>, Seq<u8>>, now: u128) -> bool {
    &&& forall|k: Seq<u8>|
        #[trigger] after.contains_key(k) ==> before.contains_key(k) && after[k] == before[k]
    &&& forall|k: Seq<u8>, s: AuthSession|
        #[trigger] before.contains_key(k) && before[k] == #[trigger] session_bytes(s) ==> (after.contains_key(k)
            <==> s.expires() > now)
    &&& forall|k: Seq<u8>|
        #[trigger] before.contains_key(k) ==> match read_value::<AuthSession>(before[k]) {
            Some(s) => after.contains_key(k) <==> s.expires() > now,
            None => !after.contains_key(k),
        }
}

/// Keeps track of login sessions.
pub struct AuthManager {
    db: AuthDb,
    clock: Clock,
}

/// Whether `after` is the sessions `before` with, when a session was
/// started under a token, that token holding the session of `user` started
/// at the clock reading `reading` to last `timeout`.
pub open spec fn session_started(
    before: Map<Seq<u8>, Seq<u8>>,
    after: Map<Seq<u8>, Seq<u8>>,
    user: UserKey,
    timeout: u128,
    reading: u128,
    res: Result<AuthToken, StoreError>,
) -> bool {
    res matches Ok(t) ==> after == before.insert(
        t.key_bytes(),
        session_bytes(AuthSession::started_at(user, reading, timeout)),
    )
}

/// Whether the answer `res` of a check of `token` at the clock reading
/// `reading` judges the session stored under it in `before` by that
/// reading: its user is returned only while its expiry is later than the
/// reading, and no session is returned only once the reading is at or past
/// its expiry.
pub open spec fn session_judged(
    before: Map<Seq<u8>, Seq<u8>>,
    token: AuthToken,
    reading: u128,
    res: Result<Option<UserKey>, StoreError>,
) -> bool {
    &&& forall|s: AuthSession|
        before.contains_key(token.key_bytes()) && before[token.key_bytes()] == #[trigger] session_bytes(s) ==> match res {
            Ok(Some(u)) => u == s.user() && reading < s.expires(),
            Ok(None) => s.expires() <= reading,
            Err(_) => true,
        }
    &&& before.contains_key(token.key_bytes()) ==> match read_value::<AuthSession>(before[token.key_bytes()]) {
        Some(s) => match res {
            Ok(Some(u)) => u == s.user() && reading < s.expires(),
            Ok(None) => s.expires() <= reading,
            Err(_) => true,
        },
        None => !(res matches Ok(Some(_))),
    }
}

/// A session started at the clock reading `r0` to last `timeout` is, at a
/// later check of its token at the clock reading `r1`, accepted for its
/// user only while `r1` is before `r0 + timeout`, and refused from then on.
pub proof fn law_session_lifetime(
    s0: Map<Seq<u8>, Seq<u8>>,
    s1: Map<Seq<u8>, Seq<u8>>,
    token: AuthToken,
    user: UserKey,
    timeout: u128,
    r0: u128,
    r1: u128,
    checked: Result<Option<UserKey>, StoreError>,
)
    requires
        r0 < MAX_INSTANT,
        timeout < MAX_INSTANT,
        session_started(s0, s1, user, timeout, r0, Ok::<AuthToken, StoreError>(token)),
        session_judged(s1, token, r1, checked),
    ensures
        checked matches Ok(Some(u)) ==> u == user && r1 < r0 + timeout,
        r0 + timeout <= r1 ==> !(checked matches Ok(Some(_))),
{
    let s = AuthSession::started_at(user, r0, timeout);
    assert(s1[token.key_bytes()] == session_bytes(s));
    assert(s.expires() == r0 + timeout);
    assert(s.user() == user);
}

/// What a check of `token` leaves of the sessions `before`: when it finds
/// no live session, none is left under the token; and when no session was
/// stored under it, nothing changes and none is found, unless the store
/// fails.
pub open spec fn token_checked(
    before: Map<Seq<u8>, Seq<u8>>,
    after: Map<Seq<u8>, Seq<u8>>,
    token: AuthToken,
    res: Result<Option<UserKey>, StoreError>,
) -> bool {
    &&& res matches Ok(None) ==> !after.contains_key(token.key_bytes())
    &&& !before.contains_key(token.key_bytes()) ==> after == before && (res matches Ok(None) || res matches Err(
        StoreError::DbError(_),
    ))
}

/// A check that finds no live session under a token is stable: checking
/// the token again finds none either and changes nothing, unless the store
/// fails.
pub proof fn law_token_check_stable(
    s0: Map<Seq<u8>, Seq<u8>>,
    s1: Map<Seq<u8>, Seq<u8>>,
    s2: Map<Seq<u8>, Seq<u8>>,
    token: AuthToken,
    r1: Result<Option<UserKey>, StoreError>,
    r2: Result<Option<UserKey>, StoreError>,
)
    requires
        token_checked(s0, s1, token, r1),
        r1 matches Ok(None),
        token_checked(s1, s2, token, r2),
    ensures
        r2 matches Ok(None) || r2 matches Err(StoreError::DbError(_)),
        s2 == s1,
{
}

impl AuthManager {
    /// How many operations on the sessions have failed so far.
    pub closed spec fn failures(&self) -> nat {
        self.db.failures()
    }

    /// The stored sessions.
    pub closed spec fn sessions(&self) -> Map<Seq<u8>, Seq<u8>> {
        self.db.contents()
    }

    /// The clock readings the manager has taken, oldest first.
    pub closed spec fn readings(&self) -> Seq<u128> {
        self.clock.readings()
    }

    /// Opens the sessions stored at the path.
    pub fn open(path: &str) -> (res: Result<Self, sled::Error>) {
        match AuthDb::open(path) {
            Ok(db) => Ok(Self { db, clock: Clock::new() }),
            Err(e) => Err(e),
        }
    }

    /// The database of sessions.
    pub fn db(&self) -> (res: &AuthDb)
        ensures
            res.contents() == self.sessions(),
    {
        &self.db
    }

    /// Starts a session for the user, lasting `timeout` nanoseconds, under a
    /// fresh random token.
    pub fn create_session(&mut self, user_id: &UserKey, timeout: u128) -> (res: Result<AuthToken, StoreError>)
        requires
            timeout < MAX_INSTANT,
        ensures
            res is Ok ==> is_random_uuid(res->Ok_0.0) && exists|now: u128|
                now < MAX_INSTANT && #[trigger] final(self).sessions() == old(self).sessions().insert(
                    res->Ok_0.key_bytes(),
                    session_bytes(AuthSession::started_at(*user_id, now, timeout)),
                ),
            res is Err ==> res->Err_0 is DbError,
            final(self).failures() == old(self).failures() + if res is Ok {
                0nat
            } else {
                1nat
            },
            read_once(old(self).readings(), final(self).readings()),
            session_started(old(self).sessions(), final(self).sessions(), *user_id, timeout, final(self).readings().last(), res),
    {
        let token = AuthToken::generate();
        let now = self.clock.read();
        let session = AuthSession::started(*user_id, now, timeout);
        match self.db.insert(&token, &session) {
            Ok(()) => Ok(token),
            Err(e) => Err(e),
        }
    }

    /// Ends the session of the token.
    pub fn destroy_session(&mut self, token: &AuthToken) -> (res: Result<(), sled::Error>)
        ensures
            res is Ok ==> final(self).sessions() == old(self).sessions().remove(token.key_bytes()),
    {
        self.db.remove_silent(token)
    }

    /// The user whose live session the token holds. A session found expired
    /// is removed; with `push_expiry`, a live one is extended. A failure to
    /// store the extension is ignored, so after a check with `push_expiry`
    /// nothing is said of what the store holds.
    pub fn check_token(&mut self, token: &AuthToken, push_expiry: bool) -> (res: Result<Option<UserKey>, StoreError>)
        ensures
            token_checked(old(self).sessions(), final(self).sessions(), *token, res),
            read_once(old(self).readings(), final(self).readings()),
            session_judged(old(self).sessions(), *token, final(self).readings().last(), res),
            forall|s: AuthSession|
                old(self).sessions().contains_key(token.key_bytes()) && old(self).sessions()[token.key_bytes()]
                    == #[trigger] session_bytes(s) && (res matches Ok(Some(_))) && push_expiry && final(self).failures()
                    == old(self).failures() ==> refreshed_stored(
                    old(self).sessions(),
                    final(self).sessions(),
                    *token,
                    s,
                    final(self).readings().last(),
                ),
            !old(self).sessions().contains_key(token.key_bytes()) ==> (res is Ok ==> res->Ok_0 is None),
            !old(self).sessions().contains_key(token.key_bytes()) ==> final(self).sessions() == old(self).sessions(),
            res matches Err(e) ==> e is DbError || (old(self).sessions().contains_key(token.key_bytes())
                && !is_record_bytes::<AuthSession>(old(self).sessions()[token.key_bytes()])),
            forall|s: AuthSession|
                old(self).sessions().contains_key(token.key_bytes()) && old(self).sessions()[token.key_bytes()]
                    == #[trigger] session_bytes(s) ==> match res {
                    Ok(Some(u)) => u == s.user() && exists|now: u128|
                        now < MAX_INSTANT && #[trigger] s.check_at(now, push_expiry) is Valid && (!push_expiry
                            ==> final(self).sessions() == old(self).sessions()) && (push_expiry && final(self).failures()
                            == old(self).failures() ==> refreshed_stored(
                            old(self).sessions(),
                            final(self).sessions(),
                            *token,
                            s,
                            now,
                        )),
                    Ok(None) => exists|now: u128|
                        now < MAX_INSTANT && #[trigger] s.check_at(now, push_expiry) is Expired
                            && final(self).sessions() == old(self).sessions().remove(token.key_bytes()),
                    Err(StoreError::DbError(_)) => true,
                    Err(_) => false,
                },
    {
        let ghost old_sessions = self.sessions();
        let now = self.clock.read();
        let session = self.db.fetch(token);
        match session {
            Ok(Some(s)) => {
                proof {
                    assert forall|s2: AuthSession|
                        old_sessions.contains_key(token.key_bytes()) && old_sessions[token.key_bytes()]
                            == #[trigger] session_bytes(s2) implies s2 == s by {
                        assert(AuthSession::valid_view(s2));
                    }
                }
                match s.check(now, push_expiry) {
                    SessionCheck::Valid { user_id, refreshed } => {
                        if let Some(r) = refreshed {
                            let _ = self.db.insert(token, &r);
                        }
                        Ok(Some(user_id))
                    },
                    SessionCheck::Expired => match self.db.remove_silent(token) {
                        Ok(_) => Ok(None),
                        Err(e) => Err(StoreError::DbError(e)),
                    },
                }
            },
            Ok(None) => Ok(None),
            Err(e) => {
                proof {
                    assert forall|s2: AuthSession|
                        old_sessions.contains_key(token.key_bytes()) && old_sessions[token.key_bytes()]
                            == #[trigger] session_bytes(s2) implies e is DbError by {
                        assert(AuthSession::valid_view(s2));
                        assert(record_bytes::<AuthSession>(s2) == old_sessions[token.key_bytes()]);
                    }
                }
                Err(e)
            },
        }
    }

    /// Removes every session that has expired at the instant `now`, and
    /// every stored entry that cannot be read as a session. Returns whether
    /// the sweep saw every session and every removal succeeded; then exactly
    /// the sessions live at `now` are left.
    pub fn clear_expired_sessions_at(&mut self, now: u128) -> (res: bool)
        ensures
            res ==> swept_at(old(self).sessions(), final(self).sessions(), now),
            final(self).failures() >= old(self).failures(),
            res <==> final(self).failures() == old(self).failures(),
    {
        let keep = |s: &AuthSession| -> (r: bool)
            ensures
                r == (s.expires() > now),
            { s.is_live(now) };
        let complete = self.db.retain(false, keep);
        proof {
            if complete {
                assert forall|k: Seq<u8>, s: AuthSession|
                    #[trigger] old(self).sessions().contains_key(k) && old(self).sessions()[k]
                        == #[trigger] session_bytes(s) implies (self.sessions().contains_key(k) <==> s.expires() > now) by {
                    let v = choose|v: AuthSession| v@ == s && keep.ensures((&v,), self.sessions().contains_key(k));
                }
                assert forall|k: Seq<u8>| #[trigger] old(self).sessions().contains_key(k) implies match read_value::<
                    AuthSession,
                >(old(self).sessions()[k]) {
                    Some(s) => self.sessions().contains_key(k) <==> s.expires() > now,
                    None => !self.sessions().contains_key(k),
                } by {
                    if let Some(s) = read_value::<AuthSession>(old(self).sessions()[k]) {
                        let v = choose|v: AuthSession| v@ == s && keep.ensures((&v,), self.sessions().contains_key(k));
                    }
                }
                assert(swept_at(old(self).sessions(), self.sessions(), now));
            }
        }
        complete
    }

    /// Removes every session that has expired by now, and every stored
    /// entry that cannot be read as a session. Returns whether the sweep saw
    /// every session and every removal succeeded; then exactly the sessions
    /// that are live at one reading of the clock are left.
    pub fn clear_expired_sessions(&mut self) -> (res: bool)
        ensures
            res ==> exists|now: u128|
                now < MAX_INSTANT && #[trigger] swept_at(old(self).sessions(), final(self).sessions(), now),
            final(self).failures() >= old(self).failures(),
            res <==> final(self).failures() == old(self).failures(),
    {
        let now = time::now();
        self.clear_expired_sessions_at(now)
    }
}

/// The context of a logged-in request: its token, and who is logged in.
#[derive(Debug, Clone)]
pub struct AuthContext {
    pub auth_token: AuthToken,
    pub user_id: UserKey,
    pub user: User,
}

/// The text `label (n)`.
pub open spec fn counted(label: Seq<char>, n: nat) -> Seq<char> {
    label + util::decimal(n) + ")"@
}

impl AuthContext {
    /// The page the logged-in user lands on.
    pub fn root_page(&self) -> (res: String)
        ensures
            res@ == self.user.user_agent.root_page_text(self.user_id),
    {
        self.user.user_agent.root_page(self.user_id)
    }

    /// The navigation of an organisation's pages: its pupils, teachers and
    /// unreviewed sections, each with its count.
    pub fn org_items(&self, org_id: OrgKey, org: &Org) -> (res: Vec<(String, String)>)
        ensures
            res@.len() == 3,
            res@[0].0@ == dir::org_path_text(org_id) + dir::CLIENTS_PAGE@,
            res@[0].1@ == counted("Pupils ("@, org.clients@.len()),
            res@[1].0@ == dir::org_path_text(org_id) + dir::ASSOCIATES_PAGE@,
            res@[1].1@ == counted("Teachers ("@, org.associates@.len()),
            res@[2].0@ == dir::org_path_text(org_id) + dir::UNREVIEWED_SECTIONS_PAGE@,
            res@[2].1@ == counted("Unreviewed Sections ("@, org.unreviewed_sections@.len()),
    {
        let mut items: Vec<(String, String)> = Vec::new();
        let clients = util::count_text(org.clients.len());
        items.push((
            dir::org_path(org_id).concat(dir::CLIENTS_PAGE),
            "Pupils (".to_owned().concat(clients.as_str()).concat(")"),
        ));
        let associates = util::count_text(org.associates.len());
        items.push((
            dir::org_path(org_id).concat(dir::ASSOCIATES_PAGE),
            "Teachers (".to_owned().concat(associates.as_str()).concat(")"),
        ));
        let unreviewed = util::count_text(org.unreviewed_sections.len());
        items.push((
            dir::org_path(org_id).concat(dir::UNREVIEWED_SECTIONS_PAGE),
            "Unreviewed Sections (".to_owned().concat(unreviewed.as_str()).concat(")"),
        ));
        items
    }
}

} // verus!
