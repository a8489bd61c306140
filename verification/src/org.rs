use vstd::prelude::*;
use crate::codec::{Fields, Record, lists};
use crate::db::Database;
use crate::dir;
use crate::keys::{OrgKey, SectionKey, UserKey};
use crate::section::texts;
use crate::time;
use crate::user::flag;

verus! {

/// The interval between notification emails, in nanoseconds.
pub open spec fn notification_interval_nanos() -> int {
    dir::NOTIFICATION_INTERVAL_DAYS * 86400 * time::NANOS_PER_SEC
}

/// An organisation (a school): its administrator, teachers, pupils, the
/// sections awaiting review and the pupil credits it has left.
#[derive(Debug, Clone)]
pub struct Org {
    pub admin: Option<UserKey>,
    pub name: String,
    pub associates: Vec<UserKey>,
    pub clients: Vec<UserKey>,
    pub unreviewed_sections: Vec<SectionKey>,
    pub credits: u32,
    /// When teachers were last notified, in nanoseconds since the UNIX epoch.
    pub last_notification: u128,
    /// The time between notifications, in nanoseconds.
    pub notification_interval: u128,
}

impl Org {
    /// A new organisation of the given name, with no administrator, members
    /// or credits, notified at the instant `now` and every few days from
    /// then on.
    pub fn new_at(name: String, now: u128) -> (res: Self)
        ensures
            res.admin is None,
            res.name@ == name@,
            res.associates@.len() == 0,
            res.clients@.len() == 0,
            res.unreviewed_sections@.len() == 0,
            res.credits == 0,
            res.last_notification == now,
            res.notification_interval == notification_interval_nanos(),
    {
        Self {
            admin: None,
            name,
            associates: Vec::new(),
            clients: Vec::new(),
            unreviewed_sections: Vec::new(),
            credits: 0,
            last_notification: now,
            notification_interval: time::secs(60 * 60 * 24 * dir::NOTIFICATION_INTERVAL_DAYS),
        }
    }

    /// A new organisation of the given name, with no administrator, members
    /// or credits, notified now and every few days from now on.
    pub fn new(name: String) -> (res: Self)
        ensures
            res.admin is None,
            res.name@ == name@,
            res.associates@.len() == 0,
            res.clients@.len() == 0,
            res.unreviewed_sections@.len() == 0,
            res.credits == 0,
            res.last_notification < time::MAX_INSTANT,
            res.notification_interval == notification_interval_nanos(),
    {
        Self::new_at(name, time::now())
    }
}

/// The model of an [`Org`].
pub struct OrgView {
    pub admin: Option<UserKey>,
    pub name: Seq<char>,
    pub associates: Seq<UserKey>,
    pub clients: Seq<UserKey>,
    pub unreviewed_sections: Seq<SectionKey>,
    pub credits: u32,
    pub last_notification: u128,
    pub notification_interval: u128,
}

impl View for Org {
    type V = OrgView;

    open spec fn view(&self) -> OrgView {
        OrgView {
            admin: self.admin,
            name: self.name@,
            associates: self.associates@,
            clients: self.clients@,
            unreviewed_sections: self.unreviewed_sections@,
            credits: self.credits,
            last_notification: self.last_notification,
            notification_interval: self.notification_interval,
        }
    }
}

/// The numbers of a list of user keys.
pub open spec fn user_key_nums(s: Seq<UserKey>) -> Seq<u128> {
    s.map_values(|k: UserKey| k.0)
}

/// The numbers of a list of section keys.
pub open spec fn section_key_nums(s: Seq<SectionKey>) -> Seq<u128> {
    s.map_values(|k: SectionKey| k.0)
}

/// The user keys of a list of numbers.
pub open spec fn user_keys_of(n: Seq<u128>) -> Seq<UserKey> {
    n.map_values(|v: u128| UserKey(v))
}

/// The section keys of a list of numbers.
pub open spec fn section_keys_of(n: Seq<u128>) -> Seq<SectionKey> {
    n.map_values(|v: u128| SectionKey(v))
}

/// The numbers of a list of user keys.
fn user_keys_to_nums(keys: &Vec<UserKey>) -> (res: Vec<u128>)
    ensures
        res@ == user_key_nums(keys@),
{
    let mut out: Vec<u128> = Vec::new();
    let mut i: usize = 0;
    while i < keys.len()
        invariant
            i <= keys@.len(),
            out@ == user_key_nums(keys@.take(i as int)),
        decreases keys@.len() - i,
    {
        out.push(keys[i].0);
        assert(keys@.take(i + 1) =~= keys@.take(i as int).push(keys@[i as int]));
        i = i + 1;
    }
    assert(keys@.take(keys@.len() as int) =~= keys@);
    out
}

/// The numbers of a list of section keys.
fn section_keys_to_nums(keys: &Vec<SectionKey>) -> (res: Vec<u128>)
    ensures
        res@ == section_key_nums(keys@),
{
    let mut out: Vec<u128> = Vec::new();
    let mut i: usize = 0;
    while i < keys.len()
        invariant
            i <= keys@.len(),
            out@ == section_key_nums(keys@.take(i as int)),
        decreases keys@.len() - i,
    {
        out.push(keys[i].0);
        assert(keys@.take(i + 1) =~= keys@.take(i as int).push(keys@[i as int]));
        i = i + 1;
    }
    assert(keys@.take(keys@.len() as int) =~= keys@);
    out
}

/// The user keys of a list of numbers.
fn nums_to_user_keys(nums: &Vec<u128>) -> (res: Vec<UserKey>)
    ensures
        res@ == user_keys_of(nums@),
{
    let mut out: Vec<UserKey> = Vec::new();
    let mut i: usize = 0;
    while i < nums.len()
        invariant
            i <= nums@.len(),
            out@ == user_keys_of(nums@.take(i as int)),
        decreases nums@.len() - i,
    {
        out.push(UserKey(nums[i]));
        assert(nums@.take(i + 1) =~= nums@.take(i as int).push(nums@[i as int]));
        i = i + 1;
    }
    assert(nums@.take(nums@.len() as int) =~= nums@);
    out
}

/// The section keys of a list of numbers.
fn nums_to_section_keys(nums: &Vec<u128>) -> (res: Vec<SectionKey>)
    ensures
        res@ == section_keys_of(nums@),
{
    let mut out: Vec<SectionKey> = Vec::new();
    let mut i: usize = 0;
    while i < nums.len()
        invariant
            i <= nums@.len(),
            out@ == section_keys_of(nums@.take(i as int)),
        decreases nums@.len() - i,
    {
        out.push(SectionKey(nums[i]));
        assert(nums@.take(i + 1) =~= nums@.take(i as int).push(nums@[i as int]));
        i = i + 1;
    }
    assert(nums@.take(nums@.len() as int) =~= nums@);
    out
}

impl Record for Org {
    open spec fn field_values(v: OrgView) -> Fields {
        (
            seq![
                flag(v.admin is Some),
                match v.admin {
                    Some(k) => k.0,
                    None => 0,
                },
                v.credits as u128,
                v.last_notification,
                v.notification_interval,
            ],
            seq![v.name],
            seq![user_key_nums(v.associates), user_key_nums(v.clients), section_key_nums(v.unreviewed_sections)],
        )
    }

    open spec fn from_field_values(f: Fields) -> Option<OrgView> {
        let (nums, ts, ls) = f;
        if nums.len() == 5 && ts.len() == 1 && ls.len() == 3 && nums[0] <= 1 && nums[2] <= u32::MAX {
            Some(
                OrgView {
                    admin: if nums[0] == 1 {
                        Some(UserKey(nums[1]))
                    } else {
                        None
                    },
                    name: ts[0],
                    associates: user_keys_of(ls[0]),
                    clients: user_keys_of(ls[1]),
                    unreviewed_sections: section_keys_of(ls[2]),
                    credits: nums[2] as u32,
                    last_notification: nums[3],
                    notification_interval: nums[4],
                },
            )
        } else {
            None
        }
    }

    open spec fn valid_view(v: OrgView) -> bool {
        true
    }

    proof fn lemma_valid_view(&self) {
    }

    proof fn lemma_fields_round_trip(v: OrgView) {
        assert(user_keys_of(user_key_nums(v.associates)) =~= v.associates);
        assert(user_keys_of(user_key_nums(v.clients)) =~= v.clients);
        assert(section_keys_of(section_key_nums(v.unreviewed_sections)) =~= v.unreviewed_sections);
    }

    fn to_fields(&self) -> (res: (Vec<u128>, Vec<String>, Vec<Vec<u128>>)) {
        let mut nums: Vec<u128> = Vec::new();
        match self.admin {
            Some(k) => {
                nums.push(1);
                nums.push(k.0);
            },
            None => {
                nums.push(0);
                nums.push(0);
            },
        }
        nums.push(self.credits as u128);
        nums.push(self.last_notification);
        nums.push(self.notification_interval);
        let mut ts: Vec<String> = Vec::new();
        ts.push(self.name.clone());
        let mut ls: Vec<Vec<u128>> = Vec::new();
        ls.push(user_keys_to_nums(&self.associates));
        ls.push(user_keys_to_nums(&self.clients));
        ls.push(section_keys_to_nums(&self.unreviewed_sections));
        assert(nums@ =~= Self::field_values(self@).0);
        assert(texts(ts@) =~= Self::field_values(self@).1);
        assert(lists(ls@) =~= Self::field_values(self@).2);
        (nums, ts, ls)
    }

    fn from_fields(nums: &Vec<u128>, ts: &Vec<String>, ls: &Vec<Vec<u128>>) -> (res: Option<Self>) {
        if nums.len() == 5 && ts.len() == 1 && ls.len() == 3 && nums[0] <= 1 && nums[2] <= 0xffff_ffff {
            assert(lists(ls@)[0] == ls@[0]@);
            assert(lists(ls@)[1] == ls@[1]@);
            assert(lists(ls@)[2] == ls@[2]@);
            let org = Org {
                admin: if nums[0] == 1 {
                    Some(UserKey(nums[1]))
                } else {
                    None
                },
                name: ts[0].clone(),
                associates: nums_to_user_keys(&ls[0]),
                clients: nums_to_user_keys(&ls[1]),
                unreviewed_sections: nums_to_section_keys(&ls[2]),
                credits: nums[2] as u32,
                last_notification: nums[3],
                notification_interval: nums[4],
            };
            Some(org)
        } else {
            None
        }
    }
}

/// The organisations, by key.
pub type OrgDb = Database<OrgKey, Org>;

/// Whether a key is other than `u`.
pub open spec fn other_than(u: UserKey) -> spec_fn(UserKey) -> bool {
    |x: UserKey| x != u
}

/// The keys of a list other than `u`.
pub open spec fn without(s: Seq<UserKey>, u: UserKey) -> Seq<UserKey> {
    s.filter(other_than(u))
}

/// The organisation with the pupil added and a credit used.
pub open spec fn with_client(o: OrgView, u: UserKey) -> OrgView {
    OrgView { clients: o.clients.push(u), credits: (o.credits - 1) as u32, ..o }
}

/// The organisation without the pupil, with a credit given back.
pub open spec fn without_client(o: OrgView, u: UserKey) -> OrgView {
    OrgView { clients: without(o.clients, u), credits: (o.credits + 1) as u32, ..o }
}

/// The organisation with the teacher added.
pub open spec fn with_associate(o: OrgView, u: UserKey) -> OrgView {
    OrgView { associates: o.associates.push(u), ..o }
}

/// The organisation without the teacher.
pub open spec fn without_associate(o: OrgView, u: UserKey) -> OrgView {
    OrgView { associates: without(o.associates, u), ..o }
}

/// The organisation with the given credits.
pub open spec fn with_credits(o: OrgView, credits: u32) -> OrgView {
    OrgView { credits, ..o }
}

/// A list that holds no `u` is left as it is by removing `u`.
pub proof fn lemma_without_absent(s: Seq<UserKey>, u: UserKey)
    requires
        !s.contains(u),
    ensures
        without(s, u) == s,
    decreases s.len(),
{
    if s.len() == 0 {
        reveal(Seq::filter);
    } else {
        let init = s.drop_last();
        assert(!init.contains(u)) by {
            if init.contains(u) {
                let i = choose|i: int| 0 <= i < init.len() && init[i] == u;
                assert(s[i] == u);
            }
        }
        lemma_without_absent(init, u);
        assert(s.last() != u) by {
            assert(s[s.len() - 1] == s.last());
        }
        init.lemma_filter_push(s.last(), other_than(u));
        assert(init.push(s.last()) =~= s);
    }
}

/// Whether `u` is in the list.
fn holds_key(v: &Vec<UserKey>, u: UserKey) -> (res: bool)
    ensures
        res == v@.contains(u),
{
    let mut i: usize = 0;
    while i < v.len()
        invariant
            i <= v@.len(),
            forall|j: int| 0 <= j < i ==> v@[j] != u,
        decreases v@.len() - i,
    {
        if v[i] == u {
            assert(v@[i as int] == u);
            return true;
        }
        i = i + 1;
    }
    false
}

/// The list without `u`, in order.
fn remove_key(v: &Vec<UserKey>, u: UserKey) -> (res: Vec<UserKey>)
    ensures
        res@ == without(v@, u),
{
    let mut out: Vec<UserKey> = Vec::new();
    let mut i: usize = 0;
    while i < v.len()
        invariant
            i <= v@.len(),
            out@ == without(v@.take(i as int), u),
        decreases v@.len() - i,
    {
        proof {
            assert(v@.take(i + 1) =~= v@.take(i as int).push(v@[i as int]));
            v@.take(i as int).lemma_filter_push(v@[i as int], other_than(u));
        }
        if v[i] != u {
            out.push(v[i]);
        }
        i = i + 1;
    }
    assert(v@.take(v@.len() as int) =~= v@);
    out
}

impl Org {
    /// Whether a pupil may be added: a pupil credit is left.
    pub fn may_add_client(&self) -> (r: bool)
        ensures
            r == (self.credits > 0),
    {
        self.credits > 0
    }

    /// Takes a pupil in: when the pupil is not yet one of the organisation's
    /// and a credit is left, the pupil is added and the credit used.
    /// Returns whether the pupil was added; otherwise nothing changes.
    pub fn admit_client(&mut self, user_id: UserKey) -> (admitted: bool)
        ensures
            admitted == (!old(self)@.clients.contains(user_id) && old(self).credits > 0),
            admitted ==> final(self)@ == with_client(old(self)@, user_id),
            !admitted ==> final(self)@ == old(self)@,
    {
        if !holds_key(&self.clients, user_id) && self.credits > 0 {
            self.clients.push(user_id);
            self.credits = self.credits - 1;
            true
        } else {
            false
        }
    }

    /// Takes a teacher in, unless already one of the organisation's.
    /// Returns whether the teacher was added; otherwise nothing changes.
    pub fn admit_associate(&mut self, user_id: UserKey) -> (admitted: bool)
        ensures
            admitted == !old(self)@.associates.contains(user_id),
            admitted ==> final(self)@ == with_associate(old(self)@, user_id),
            !admitted ==> final(self)@ == old(self)@,
    {
        if !holds_key(&self.associates, user_id) {
            self.associates.push(user_id);
            true
        } else {
            false
        }
    }

    /// Lets a pupil go: every mention of the pupil leaves the list and a
    /// credit comes back.
    pub fn release_client(&mut self, user_id: UserKey)
        requires
            old(self).credits < u32::MAX,
        ensures
            final(self)@ == without_client(old(self)@, user_id),
    {
        self.clients = remove_key(&self.clients, user_id);
        self.credits = self.credits + 1;
    }

    /// Lets a teacher go: every mention of the teacher leaves the list.
    pub fn release_associate(&mut self, user_id: UserKey)
        ensures
            final(self)@ == without_associate(old(self)@, user_id),
    {
        self.associates = remove_key(&self.associates, user_id);
    }

    /// Adds credits, unless the total would not fit; returns whether it did.
    pub fn add_credits(&mut self, count: u32) -> (added: bool)
        ensures
            added == (old(self).credits + count <= u32::MAX),
            added ==> final(self)@ == with_credits(old(self)@, (old(self).credits + count) as u32),
            !added ==> final(self)@ == old(self)@,
    {
        match self.credits.checked_add(count) {
            Some(c) => {
                self.credits = c;
                true
            },
            None => false,
        }
    }

    /// Whether the teachers are due a reminder at `now`: the interval has
    /// passed since the last one (an end of the interval past every
    /// representable instant never passes).
    pub fn notification_due(&self, now: u128) -> (res: bool)
        ensures
            res == (self.last_notification + self.notification_interval < now),
    {
        match self.last_notification.checked_add(self.notification_interval) {
            Some(next) => now > next,
            None => false,
        }
    }
}

/// Taking a new pupil in and letting them go again restores the
/// organisation, as long as a credit was left.
pub proof fn law_admit_then_release_client(org: OrgView, user_id: UserKey)
    requires
        !org.clients.contains(user_id),
        org.credits > 0,
    ensures
        without_client(with_client(org, user_id), user_id) == org,
{
    lemma_without_absent(org.clients, user_id);
    org.clients.lemma_filter_push(user_id, other_than(user_id));
}

/// Taking a pupil in keeps the pupils plus the credits left the same, and
/// keeps each pupil listed once.
pub proof fn law_admission_conserves_places(org: OrgView, user_id: UserKey)
    requires
        !org.clients.contains(user_id),
        org.credits > 0,
    ensures
        with_client(org, user_id).clients.len() + with_client(org, user_id).credits == org.clients.len()
            + org.credits,
        org.clients.no_duplicates() ==> with_client(org, user_id).clients.no_duplicates(),
{
    let c = org.clients.push(user_id);
    assert(org.clients.no_duplicates() ==> c.no_duplicates()) by {
        if org.clients.no_duplicates() {
            assert forall|i: int, j: int| 0 <= i < c.len() && 0 <= j < c.len() && i != j implies c[i] != c[j] by {
                if i == c.len() - 1 {
                    assert(org.clients.contains(c[j]) ==> c[j] != user_id);
                    assert(org.clients[j] == c[j]);
                } else if j == c.len() - 1 {
                    assert(org.clients[i] == c[i]);
                }
            }
        }
    }
}

/// Letting a pupil go who is listed once gives back exactly one place: the
/// pupils plus the credits left stay the same, and the pupil is gone.
pub proof fn law_release_conserves_places(org: OrgView, user_id: UserKey)
    requires
        org.clients.contains(user_id),
        org.clients.no_duplicates(),
        org.credits < u32::MAX,
    ensures
        without_client(org, user_id).clients.len() + without_client(org, user_id).credits == org.clients.len()
            + org.credits,
        !without_client(org, user_id).clients.contains(user_id),
{
    let c = org.clients;
    let i = choose|i: int| 0 <= i < c.len() && c[i] == user_id;
    let a = c.take(i);
    let b = c.skip(i + 1);
    assert(c =~= a.push(user_id) + b);
    assert(!a.contains(user_id)) by {
        if a.contains(user_id) {
            let j = choose|j: int| 0 <= j < a.len() && a[j] == user_id;
            assert(c[j] == user_id);
        }
    }
    assert(!b.contains(user_id)) by {
        if b.contains(user_id) {
            let j = choose|j: int| 0 <= j < b.len() && b[j] == user_id;
            assert(c[i + 1 + j] == user_id);
        }
    }
    lemma_without_absent(a, user_id);
    lemma_without_absent(b, user_id);
    a.lemma_filter_push(user_id, other_than(user_id));
    Seq::filter_distributes_over_add(a.push(user_id), b, other_than(user_id));
    assert(without(c, user_id) == a + b);
    assert(!(a + b).contains(user_id)) by {
        if (a + b).contains(user_id) {
            let j = choose|j: int| 0 <= j < (a + b).len() && (a + b)[j] == user_id;
            if j < a.len() {
                assert(a[j] == user_id);
            } else {
                assert(b[j - a.len()] == user_id);
            }
        }
    }
}

} // verus!
