use vstd::prelude::*;
use crate::codec::{Fields, Record, lists, read_value, record_bytes};
use crate::db::{Database, StoreError, StoreKey};
use crate::keys::{LinkToken, UserKey, is_random_uuid};
use crate::section::texts;
use crate::time::{Clock, MAX_INSTANT, read_once};
use crate::user::{self, AgentView, UserAgent, agent_fields, agent_from, agent_valid};

verus! {

/// What following a link does: create an account of the given kind, or
/// change the password of the given user.
#[derive(Debug, Clone)]
pub enum Link {
    CreateUser(UserAgent),
    ChangePassword(UserKey),
}

/// The model of a [`Link`].
pub enum LinkView {
    CreateUser(AgentView),
    ChangePassword(UserKey),
}

impl View for Link {
    type V = LinkView;

    open spec fn view(&self) -> LinkView {
        match self {
            Link::CreateUser(a) => LinkView::CreateUser(a@),
            Link::ChangePassword(u) => LinkView::ChangePassword(*u),
        }
    }
}

/// A stored link: what it does, until when it can be followed (nanoseconds
/// since the UNIX epoch) and the time it was made to last.
#[derive(Debug, Clone)]
pub struct LinkEntry {
    pub link: Link,
    pub expiry: u128,
    pub timeout: u128,
}

/// The model of a [`LinkEntry`].
pub struct LinkEntryView {
    pub link: LinkView,
    pub expiry: u128,
    pub timeout: u128,
}

impl View for LinkEntry {
    type V = LinkEntryView;

    open spec fn view(&self) -> LinkEntryView {
        LinkEntryView { link: self.link@, expiry: self.expiry, timeout: self.timeout }
    }
}

/// The entry of a link made at `now` to last `timeout`.
pub open spec fn link_made_at(link: LinkView, now: u128, timeout: u128) -> LinkEntryView {
    LinkEntryView { link, expiry: (now + timeout) as u128, timeout }
}

/// Whether a link can still be followed at `now`.
pub open spec fn link_live_at(e: LinkEntryView, now: u128) -> bool {
    e.expiry > now
}

impl LinkEntry {
    /// The entry of a link made at the instant `now` to last `timeout`
    /// nanoseconds.
    pub fn made_at(link: Link, now: u128, timeout: u128) -> (e: LinkEntry)
        requires
            now < MAX_INSTANT,
            timeout < MAX_INSTANT,
        ensures
            e@ == link_made_at(link@, now, timeout),
    {
        LinkEntry { link, expiry: now + timeout, timeout }
    }

    /// Whether the link can still be followed at the instant `now`.
    pub fn is_live(&self, now: u128) -> (r: bool)
        ensures
            r == link_live_at(self@, now),
    {
        self.expiry > now
    }
}

impl Record for LinkEntry {
    open spec fn field_values(v: LinkEntryView) -> Fields {
        match v.link {
            LinkView::CreateUser(a) => (seq![v.expiry, v.timeout, 0] + agent_fields(a).0, agent_fields(a).1, Seq::empty()),
            LinkView::ChangePassword(u) => (seq![v.expiry, v.timeout, 1, u.0], Seq::empty(), Seq::empty()),
        }
    }

    open spec fn from_field_values(f: Fields) -> Option<LinkEntryView> {
        let (nums, ts, ls) = f;
        if ls.len() != 0 {
            None
        } else if nums.len() >= 3 && nums[2] == 0 {
            match agent_from(nums.skip(3), ts) {
                Some(a) => Some(LinkEntryView { link: LinkView::CreateUser(a), expiry: nums[0], timeout: nums[1] }),
                None => None,
            }
        } else if nums.len() == 4 && nums[2] == 1 && ts.len() == 0 {
            Some(LinkEntryView { link: LinkView::ChangePassword(UserKey(nums[3])), expiry: nums[0], timeout: nums[1] })
        } else {
            None
        }
    }

    open spec fn valid_view(v: LinkEntryView) -> bool {
        match v.link {
            LinkView::CreateUser(a) => agent_valid(a),
            LinkView::ChangePassword(_) => true,
        }
    }

    proof fn lemma_valid_view(&self) {
    }

    proof fn lemma_fields_round_trip(v: LinkEntryView) {
        match v.link {
            LinkView::CreateUser(a) => {
                user::lemma_agent_round_trip(a);
                assert(Self::field_values(v).0.skip(3) =~= agent_fields(a).0);
            },
            LinkView::ChangePassword(_) => {},
        }
    }

    fn to_fields(&self) -> (res: (Vec<u128>, Vec<String>, Vec<Vec<u128>>)) {
        let mut nums: Vec<u128> = Vec::new();
        let mut ts: Vec<String> = Vec::new();
        let ls: Vec<Vec<u128>> = Vec::new();
        nums.push(self.expiry);
        nums.push(self.timeout);
        assert(texts(ts@) =~= Seq::<Seq<char>>::empty());
        match &self.link {
            Link::CreateUser(a) => {
                nums.push(0);
                user::push_agent_fields(a, &mut nums, &mut ts);
            },
            Link::ChangePassword(u) => {
                nums.push(1);
                nums.push(u.0);
            },
        }
        assert(nums@ =~= Self::field_values(self@).0);
        assert(texts(ts@) =~= Self::field_values(self@).1);
        assert(lists(ls@) =~= Self::field_values(self@).2);
        (nums, ts, ls)
    }

    fn from_fields(nums: &Vec<u128>, ts: &Vec<String>, ls: &Vec<Vec<u128>>) -> (res: Option<Self>) {
        if ls.len() != 0 {
            None
        } else if nums.len() >= 3 && nums[2] == 0 {
            assert(texts(ts@).skip(0) =~= texts(ts@));
            match user::agent_from_fields(nums, 3, ts, 0) {
                Some(a) => Some(LinkEntry { link: Link::CreateUser(a), expiry: nums[0], timeout: nums[1] }),
                None => None,
            }
        } else if nums.len() == 4 && nums[2] == 1 && ts.len() == 0 {
            Some(LinkEntry { link: Link::ChangePassword(UserKey(nums[3])), expiry: nums[0], timeout: nums[1] })
        } else {
            None
        }
    }
}

/// The bytes a link entry is stored as.
pub open spec fn link_bytes(e: LinkEntryView) -> Seq<u8> {
    record_bytes::<LinkEntry>(e)
}

/// Whether `after` is `before` with exactly the links that expired by `now`
/// removed: nothing else changed, and a link stays exactly when it is live
/// at `now`.
pub open spec fn links_swept_at(before: Map<Seq<u8>, Seq<u8>>, after: Map<Seq<u8>, Seq<u8>>, now: u128) -> bool {
    &&& forall|k: Seq<u8>|
        #[trigger] after.contains_key(k) ==> before.contains_key(k) && after[k] == before[k]
    &&& forall|k: Seq<u8>, e: LinkEntryView|
        #[trigger] before.contains_key(k) && LinkEntry::valid_view(e) && before[k] == #[trigger] link_bytes(e)
            ==> (after.contains_key(k) <==> link_live_at(e, now))
    &&& forall|k: Seq<u8>|
        #[trigger] before.contains_key(k) ==> match read_value::<LinkEntry>(before[k]) {
            Some(e) => after.contains_key(k) <==> link_live_at(e, now),
            None => !after.contains_key(k),
        }
}

/// The links, by token.
pub type LinkDb = Database<LinkToken, LinkEntry>;

/// Keeps track of the links sent out by email.
pub struct LinkManager {
    db: LinkDb,
    clock: Clock,
}

/// Whether `after` is the links `before` with, when a link was made under a
/// token, that token holding `link` made at the clock reading `reading` to
/// last `timeout`.
pub open spec fn link_created(
    before: Map<Seq<u8>, Seq<u8>>,
    after: Map<Seq<u8>, Seq<u8>>,
    link: LinkView,
    timeout: u128,
    reading: u128,
    res: Result<LinkToken, StoreError>,
) -> bool {
    res matches Ok(t) ==> after == before.insert(t.key_bytes(), link_bytes(link_made_at(link, reading, timeout)))
}

/// Whether the answer `res` of a fetch of `token` at the clock reading
/// `reading` judges the link stored under it in `before` by that reading: a
/// link is returned only while its expiry is later than the reading, and no
/// link is returned only once the reading is at or past its expiry.
pub open spec fn link_judged(
    before: Map<Seq<u8>, Seq<u8>>,
    token: LinkToken,
    reading: u128,
    res: Result<Option<LinkEntry>, StoreError>,
) -> bool {
    &&& forall|e: LinkEntryView|
        before.contains_key(token.key_bytes()) && LinkEntry::valid_view(e) && before[token.key_bytes()]
            == #[trigger] link_bytes(e) ==> match res {
            Ok(Some(l)) => l@ == e && reading < e.expiry,
            Ok(None) => e.expiry <= reading,
            Err(_) => true,
        }
    &&& res matches Ok(Some(l)) ==> reading < l.expiry
}

/// A link made at the clock reading `r0` to last `timeout` is, at a later
/// fetch of its token at the clock reading `r1`, returned only while `r1` is
/// before `r0 + timeout`, and refused from then on.
pub proof fn law_link_lifetime_across_calls(
    l0: Map<Seq<u8>, Seq<u8>>,
    l1: Map<Seq<u8>, Seq<u8>>,
    token: LinkToken,
    link: LinkView,
    timeout: u128,
    r0: u128,
    r1: u128,
    fetched: Result<Option<LinkEntry>, StoreError>,
)
    requires
        r0 < MAX_INSTANT,
        timeout < MAX_INSTANT,
        LinkEntry::valid_view(link_made_at(link, r0, timeout)),
        link_created(l0, l1, link, timeout, r0, Ok::<LinkToken, StoreError>(token)),
        link_judged(l1, token, r1, fetched),
    ensures
        fetched matches Ok(Some(l)) ==> l@ == link_made_at(link, r0, timeout) && r1 < r0 + timeout,
        r0 + timeout <= r1 ==> !(fetched matches Ok(Some(_))),
{
    let e = link_made_at(link, r0, timeout);
    assert(l1[token.key_bytes()] == link_bytes(e));
}

impl LinkManager {
    /// How many operations on the links have failed so far.
    pub closed spec fn failures(&self) -> nat {
        self.db.failures()
    }

    /// The stored links.
    pub closed spec fn links(&self) -> Map<Seq<u8>, Seq<u8>> {
        self.db.contents()
    }

    /// The clock readings the manager has taken, oldest first.
    pub closed spec fn readings(&self) -> Seq<u128> {
        self.clock.readings()
    }

    /// Opens the links stored at the path.
    pub fn open(path: &str) -> (res: Result<Self, sled::Error>) {
        match LinkDb::open(path) {
            Ok(db) => Ok(Self { db, clock: Clock::new() }),
            Err(e) => Err(e),
        }
    }

    /// The database of links.
    pub fn db(&self) -> (res: &LinkDb)
        ensures
            res.contents() == self.links(),
    {
        &self.db
    }

    /// Stores the link, made at the instant `now` to last `timeout`
    /// nanoseconds, under a fresh random token.
    pub fn create_link_at(&mut self, link: Link, now: u128, timeout: u128) -> (res: Result<LinkToken, StoreError>)
        requires
            now < MAX_INSTANT,
            timeout < MAX_INSTANT,
        ensures
            final(self).readings() == old(self).readings(),
            res is Ok ==> is_random_uuid(res->Ok_0.0) && final(self).links() == old(self).links().insert(
                res->Ok_0.key_bytes(),
                link_bytes(link_made_at(link@, now, timeout)),
            ),
            res is Err ==> res->Err_0 is DbError,
            final(self).failures() == old(self).failures() + if res is Ok {
                0nat
            } else {
                1nat
            },
    {
        let token = LinkToken::generate();
        let entry = LinkEntry::made_at(link, now, timeout);
        proof {
            entry.lemma_valid_view();
        }
        match self.db.insert(&token, &entry) {
            Ok(()) => Ok(token),
            Err(e) => Err(e),
        }
    }

    /// Stores the link, to last `timeout` nanoseconds from now, under a
    /// fresh random token.
    pub fn create_link(&mut self, link: Link, timeout: u128) -> (res: Result<LinkToken, StoreError>)
        requires
            timeout < MAX_INSTANT,
        ensures
            res is Ok ==> is_random_uuid(res->Ok_0.0) && exists|now: u128|
                now < MAX_INSTANT && #[trigger] final(self).links() == old(self).links().insert(
                    res->Ok_0.key_bytes(),
                    link_bytes(link_made_at(link@, now, timeout)),
                ),
            res is Err ==> res->Err_0 is DbError,
            final(self).failures() == old(self).failures() + if res is Ok {
                0nat
            } else {
                1nat
            },
            read_once(old(self).readings(), final(self).readings()),
            link_created(old(self).links(), final(self).links(), link@, timeout, final(self).readings().last(), res),
    {
        let now = self.clock.read();
        self.create_link_at(link, now, timeout)
    }

    /// Removes the link of the token.
    pub fn destroy_link(&mut self, token: &LinkToken) -> (res: Result<(), sled::Error>)
        ensures
            res is Ok ==> final(self).links() == old(self).links().remove(token.key_bytes()),
    {
        self.db.remove_silent(token)
    }

    /// The link of the token if it can still be followed at the instant
    /// `now`. A link found expired at `now` is removed.
    pub fn fetch_at(&mut self, token: &LinkToken, now: u128) -> (res: Result<Option<LinkEntry>, StoreError>)
        ensures
            final(self).readings() == old(self).readings(),
            !old(self).links().contains_key(token.key_bytes()) ==> final(self).links() == old(self).links() && (res matches Ok(
                None,
            ) || res matches Err(StoreError::DbError(_))),
            old(self).links().contains_key(token.key_bytes()) ==> match read_value::<LinkEntry>(
                old(self).links()[token.key_bytes()],
            ) {
                Some(e) => match res {
                    Ok(Some(l)) => l@ == e && link_live_at(e, now) && final(self).links() == old(self).links(),
                    Ok(None) => !link_live_at(e, now) && final(self).links() == old(self).links().remove(
                        token.key_bytes(),
                    ),
                    Err(err) => err is DbError,
                },
                None => final(self).links() == old(self).links() && (res matches Err(StoreError::DeserializeError(_))
                    || res matches Err(StoreError::DbError(_))),
            },
            forall|e: LinkEntryView|
                old(self).links().contains_key(token.key_bytes()) && LinkEntry::valid_view(e)
                    && old(self).links()[token.key_bytes()] == #[trigger] link_bytes(e) ==> match res {
                    Ok(Some(l)) => l@ == e && final(self).links() == old(self).links() && link_live_at(e, now),
                    Ok(None) => final(self).links() == old(self).links().remove(token.key_bytes()) && !link_live_at(e, now),
                    Err(StoreError::DbError(_)) => true,
                    Err(_) => false,
                },
            final(self).failures() == old(self).failures() + if res matches Err(StoreError::DbError(_)) {
                1nat
            } else {
                0nat
            },
    {
        let ghost old_links = self.links();
        let entry = self.db.fetch(token);
        match entry {
            Ok(Some(l)) => {
                proof {
                    assert forall|e: LinkEntryView|
                        old_links.contains_key(token.key_bytes()) && LinkEntry::valid_view(e)
                            && old_links[token.key_bytes()] == #[trigger] link_bytes(e) implies l@ == e by {}
                }
                if l.is_live(now) {
                    Ok(Some(l))
                } else {
                    match self.db.remove_silent(token) {
                        Ok(_) => Ok(None),
                        Err(e) => Err(StoreError::DbError(e)),
                    }
                }
            },
            Ok(None) => Ok(None),
            Err(e) => {
                proof {
                    assert forall|x: LinkEntryView|
                        old_links.contains_key(token.key_bytes()) && LinkEntry::valid_view(x)
                            && old_links[token.key_bytes()] == #[trigger] link_bytes(x) implies e is DbError by {
                        assert(record_bytes::<LinkEntry>(x) == old_links[token.key_bytes()]);
                    }
                }
                if let StoreError::DbError(se) = &e {
                    self.db.note_failure(se);
                }
                Err(e)
            },
        }
    }

    /// The link of the token while it can still be followed. A link found
    /// expired is removed.
    pub fn fetch(&mut self, token: &LinkToken) -> (res: Result<Option<LinkEntry>, StoreError>)
        ensures
            !old(self).links().contains_key(token.key_bytes()) ==> (res is Ok ==> res->Ok_0 is None),
            !old(self).links().contains_key(token.key_bytes()) ==> final(self).links() == old(self).links(),
            forall|e: LinkEntryView|
                old(self).links().contains_key(token.key_bytes()) && LinkEntry::valid_view(e)
                    && old(self).links()[token.key_bytes()] == #[trigger] link_bytes(e) ==> match res {
                    Ok(Some(l)) => l@ == e && final(self).links() == old(self).links() && exists|now: u128|
                        now < MAX_INSTANT && #[trigger] link_live_at(e, now),
                    Ok(None) => final(self).links() == old(self).links().remove(token.key_bytes()) && exists|
                        now: u128,
                    |
                        now < MAX_INSTANT && !#[trigger] link_live_at(e, now),
                    Err(StoreError::DbError(_)) => true,
                    Err(_) => false,
                },
            res matches Ok(Some(l)) ==> old(self).links().contains_key(token.key_bytes()) && read_value::<LinkEntry>(
                old(self).links()[token.key_bytes()],
            ) == Some(l@),
            res matches Err(e) ==> e is DbError || (old(self).links().contains_key(token.key_bytes()) && read_value::<
                LinkEntry,
            >(old(self).links()[token.key_bytes()]) is None),
            final(self).failures() == old(self).failures() + if res matches Err(StoreError::DbError(_)) {
                1nat
            } else {
                0nat
            },
            read_once(old(self).readings(), final(self).readings()),
            link_judged(old(self).links(), *token, final(self).readings().last(), res),
    {
        let now = self.clock.read();
        let res = self.fetch_at(token, now);
        proof {
            assert forall|e: LinkEntryView|
                old(self).links().contains_key(token.key_bytes()) && LinkEntry::valid_view(e)
                    && old(self).links()[token.key_bytes()] == #[trigger] link_bytes(e) implies match res {
                    Ok(Some(l)) => l@ == e && self.links() == old(self).links() && exists|now2: u128|
                        now2 < MAX_INSTANT && #[trigger] link_live_at(e, now2),
                    Ok(None) => self.links() == old(self).links().remove(token.key_bytes()) && exists|
                        now2: u128,
                    |
                        now2 < MAX_INSTANT && !#[trigger] link_live_at(e, now2),
                    Err(StoreError::DbError(_)) => true,
                    Err(_) => false,
                } by {
                assert(link_live_at(e, now) || !link_live_at(e, now));
            }
        }
        res
    }

    /// Removes every link that has expired at the instant `now`, and every
    /// stored entry that cannot be read as a link. Returns whether the sweep
    /// saw every link and every removal succeeded; then exactly the links
    /// live at `now` are left.
    pub fn clear_expired_links_at(&mut self, now: u128) -> (res: bool)
        ensures
            final(self).readings() == old(self).readings(),
            res ==> links_swept_at(old(self).links(), final(self).links(), now),
            final(self).failures() >= old(self).failures(),
            res <==> final(self).failures() == old(self).failures(),
    {
        let keep = |l: &LinkEntry| -> (r: bool)
            ensures
                r == link_live_at(l@, now),
            { l.is_live(now) };
        let complete = self.db.retain(false, keep);
        proof {
            if complete {
                assert forall|k: Seq<u8>, e: LinkEntryView|
                    #[trigger] old(self).links().contains_key(k) && LinkEntry::valid_view(e)
                        && old(self).links()[k] == #[trigger] link_bytes(e) implies (self.links().contains_key(k)
                        <==> link_live_at(e, now)) by {
                    let v = choose|v: LinkEntry| v@ == e && keep.ensures((&v,), self.links().contains_key(k));
                }
                assert forall|k: Seq<u8>| #[trigger] old(self).links().contains_key(k) implies match read_value::<
                    LinkEntry,
                >(old(self).links()[k]) {
                    Some(e) => self.links().contains_key(k) <==> link_live_at(e, now),
                    None => !self.links().contains_key(k),
                } by {
                    if let Some(e) = read_value::<LinkEntry>(old(self).links()[k]) {
                        let v = choose|v: LinkEntry| v@ == e && keep.ensures((&v,), self.links().contains_key(k));
                    }
                }
                assert(links_swept_at(old(self).links(), self.links(), now));
            }
        }
        complete
    }

    /// Removes every link that has expired by now, and every stored entry
    /// that cannot be read as a link. Returns whether the sweep saw every
    /// link and every removal succeeded; then exactly the links live at one
    /// reading of the clock are left.
    pub fn clear_expired_links(&mut self) -> (res: bool)
        ensures
            res ==> exists|now: u128|
                now < MAX_INSTANT && #[trigger] links_swept_at(old(self).links(), final(self).links(), now),
            final(self).failures() >= old(self).failures(),
            res <==> final(self).failures() == old(self).failures(),
    {
        let now = self.clock.read();
        let ghost read = self.links();
        let res = self.clear_expired_links_at(now);
        proof {
            assert(read == old(self).links());
            if res {
                assert(links_swept_at(old(self).links(), self.links(), now));
            }
        }
        res
    }
}

/// A link made at `now` for `timeout` can be followed at every instant
/// before `now + timeout` and at none from then on.
pub proof fn law_link_lifetime(link: LinkView, made: u128, timeout: u128, at: u128)
    requires
        made < MAX_INSTANT,
        timeout < MAX_INSTANT,
    ensures
        link_live_at(link_made_at(link, made, timeout), at) <==> at < made + timeout,
{
}

} // verus!
