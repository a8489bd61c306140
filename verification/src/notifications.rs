use vstd::prelude::*;
use crate::codec::{Record, decodes_to, is_record_bytes, record_bytes};
use crate::data::SharedData;
use crate::db::StoreKey;
use crate::keys::{OrgKey, UserKey, be_bytes};
use crate::org::{Org, OrgView};
use crate::user::{User, UserDb, UserView};
use crate::util::{self, decimal};

verus! {

/// Whether a teacher is sent a reminder: when they asked for emails and
/// sections await review.
pub fn should_notify(user: &User, unreviewed_count: usize) -> (res: bool)
    ensures
        res == (user.notifications && unreviewed_count > 0),
{
    user.notifications && unreviewed_count > 0
}

/// The subject of the reminder about unreviewed sections.
pub fn notification_subject(unreviewed_count: usize) -> (res: String)
    ensures
        res@ == "There are "@ + decimal(unreviewed_count as nat) + " new unreviewed sections"@,
{
    let n = util::count_text(unreviewed_count);
    "There are ".to_owned().concat(n.as_str()).concat(" new unreviewed sections")
}

/// The organisation once its teachers were reminded at `now`.
pub open spec fn notified_at(o: OrgView, now: u128) -> OrgView {
    OrgView { last_notification: now, ..o }
}

impl Org {
    /// Records that the teachers were reminded at `now`.
    pub fn mark_notified(&mut self, now: u128)
        ensures
            final(self)@ == notified_at(old(self)@, now),
    {
        self.last_notification = now;
    }
}

/// Whether `email` is that of a teacher of the organisation to remind: a
/// teacher stored in `users`, read as `u`, who asked for emails.
pub open spec fn reminded(users: UserDb, org: OrgView, email: Seq<char>) -> bool {
    exists|j: int, u: UserView|
        0 <= j < org.associates.len() && #[trigger] decodes_to::<User>(
            users.stored(org.associates[j].key_bytes())->Some_0,
            u,
        ) && users.stored(org.associates[j].key_bytes()) is Some && u.notifications && u.email == email
}

/// The email of the stored user `id` when their bytes are those of a user
/// who asked for emails.
pub open spec fn reminder_email(users: UserDb, id: UserKey) -> Option<Seq<char>> {
    match users.stored(id.key_bytes()) {
        Some(b) => if exists|u: UserView| User::valid_view(u) && #[trigger] record_bytes::<User>(u) == b && u.notifications {
            Some((choose|u: UserView| User::valid_view(u) && #[trigger] record_bytes::<User>(u) == b && u.notifications).email)
        } else {
            None
        },
        None => None,
    }
}

/// Whether `emails` are those the organisation's teachers are reminded at:
/// none when no section awaits review; else each is the email of a stored
/// teacher who asked for emails, and, when `read` says no read failed, every
/// such teacher's email is among them.
pub open spec fn emails_owed(users: UserDb, org: OrgView, emails: Seq<String>, read: bool) -> bool {
    &&& org.unreviewed_sections.len() == 0 ==> emails.len() == 0
    &&& forall|i: int| 0 <= i < emails.len() ==> #[trigger] reminded(users, org, emails[i]@)
    &&& read && org.unreviewed_sections.len() > 0 ==> forall|j: int|
        0 <= j < org.associates.len() && #[trigger] reminder_email(users, org.associates[j]) is Some ==> exists|i: int|
            0 <= i < emails.len() && emails[i]@ == reminder_email(users, org.associates[j])->Some_0
}

/// What reminders are owed depends only on what the users' store holds.
proof fn lemma_emails_owed_by_contents(a: UserDb, b: UserDb, org: OrgView, emails: Seq<String>, read: bool)
    requires
        a.contents() == b.contents(),
        emails_owed(a, org, emails, read),
    ensures
        emails_owed(b, org, emails, read),
{
    assert forall|k: Seq<u8>| #[trigger] a.stored(k) == b.stored(k) by {}
    assert forall|id: UserKey| #[trigger] reminder_email(a, id) == reminder_email(b, id) by {
        assert(a.stored(id.key_bytes()) == b.stored(id.key_bytes()));
    }
    assert forall|e: Seq<char>| #[trigger] reminded(a, org, e) implies reminded(b, org, e) by {
        let (j, u) = choose|j: int, u: UserView|
            0 <= j < org.associates.len() && #[trigger] decodes_to::<User>(a.stored(org.associates[j].key_bytes())->Some_0, u)
                && a.stored(org.associates[j].key_bytes()) is Some && u.notifications && u.email == e;
        assert(a.stored(org.associates[j].key_bytes()) == b.stored(org.associates[j].key_bytes()));
        assert(decodes_to::<User>(b.stored(org.associates[j].key_bytes())->Some_0, u));
    }
    assert forall|i: int| 0 <= i < emails.len() implies #[trigger] reminded(b, org, emails[i]@) by {
        assert(reminded(a, org, emails[i]@));
    }
    if read && org.unreviewed_sections.len() > 0 {
        assert forall|j: int|
            0 <= j < org.associates.len() && #[trigger] reminder_email(b, org.associates[j]) is Some implies exists|i: int|
                0 <= i < emails.len() && emails[i]@ == reminder_email(b, org.associates[j])->Some_0 by {
            assert(reminder_email(a, org.associates[j]) == reminder_email(b, org.associates[j]));
        }
    }
}

/// A reminder to send: the organisation, as read before it was recorded as
/// reminded, the subject, and the emails of its teachers to remind.
pub struct Reminder {
    pub org_id: OrgKey,
    pub org: Org,
    pub subject: String,
    pub emails: Vec<String>,
}

/// The subject of a reminder about `n` unreviewed sections.
pub open spec fn subject_text(n: nat) -> Seq<char> {
    "There are "@ + decimal(n) + " new unreviewed sections"@
}

/// Whether `r` is a reminder that `d` owes at `now`: the organisation is
/// stored under its key, read as `r.org`, and due a reminder; the subject
/// counts its unreviewed sections; and the emails are those its teachers
/// are reminded at.
pub open spec fn reminder_owed(d: SharedData, r: Reminder, now: u128, read: bool) -> bool {
    &&& d.org_db.stored(r.org_id.key_bytes()) is Some
    &&& decodes_to::<Org>(d.org_db.stored(r.org_id.key_bytes())->Some_0, r.org@)
    &&& r.org.last_notification + r.org.notification_interval < now
    &&& r.subject@ == subject_text(r.org.unreviewed_sections@.len())
    &&& emails_owed(d.user_db, r.org@, r.emails@, read)
}

/// The organisations' records once each reminded organisation was recorded
/// as reminded at `now`, in turn.
pub open spec fn reminded_store(c: Map<Seq<u8>, Seq<u8>>, rs: Seq<Reminder>, now: u128) -> Map<Seq<u8>, Seq<u8>>
    decreases rs.len(),
{
    if rs.len() == 0 {
        c
    } else {
        reminded_store(c, rs.drop_last(), now).insert(
            rs.last().org_id.key_bytes(),
            record_bytes::<Org>(notified_at(rs.last().org@, now)),
        )
    }
}

/// Whether the bytes under `k` are those of an organisation due a reminder
/// at `now`.
pub open spec fn org_due_at(c: Map<Seq<u8>, Seq<u8>>, k: Seq<u8>, now: u128) -> bool {
    c.contains_key(k) && exists|o: OrgView|
        Org::valid_view(o) && #[trigger] record_bytes::<Org>(o) == c[k] && o.last_notification + o.notification_interval
            < now
}

impl SharedData {
    /// The emails of the organisation's teachers to remind about its
    /// unreviewed sections: none when no section awaits review, else those
    /// of the teachers found who asked for emails; and whether no
    /// read failed, in which case no such teacher is left out.
    pub fn notification_emails(&mut self, org: &Org) -> (res: (Vec<String>, bool))
        ensures
            emails_owed(old(self).user_db, org@, res.0@, res.1),
            final(self).user_db.contents() == old(self).user_db.contents(),
            final(self).user_db.failures() >= old(self).user_db.failures(),
            res.1 <==> final(self).user_db.failures() == old(self).user_db.failures(),
            final(self).login_db == old(self).login_db,
            final(self).org_db == old(self).org_db,
            final(self).section_db == old(self).section_db,
            final(self).auth_manager == old(self).auth_manager,
            final(self).link_manager == old(self).link_manager,
            final(self).awards == old(self).awards,
            final(self).fs_root == old(self).fs_root,
    {
        let ghost s0 = *self;
        let ghost db0 = self.user_db;
        let count = org.unreviewed_sections.len();
        let mut emails: Vec<String> = Vec::new();
        let mut complete = true;
        let ghost mut sent: Seq<Seq<char>> = Seq::empty();
        let mut i: usize = 0;
        while i < org.associates.len()
            invariant
                i <= org.associates@.len(),
                count == org.unreviewed_sections@.len(),
                count == 0 ==> emails@.len() == 0,
                self.user_db.contents() == db0.contents(),
                self.user_db.failures() >= db0.failures(),
                complete <==> self.user_db.failures() == db0.failures(),
                self.login_db == s0.login_db,
                self.org_db == s0.org_db,
                self.section_db == s0.section_db,
                self.auth_manager == s0.auth_manager,
                self.link_manager == s0.link_manager,
                self.awards == s0.awards,
                self.fs_root == s0.fs_root,
                sent.len() == emails@.len(),
                forall|k: int| 0 <= k < emails@.len() ==> sent[k] == #[trigger] emails@[k]@,
                forall|k: int| 0 <= k < emails@.len() ==> #[trigger] reminded(db0, org@, emails@[k]@),
                complete && count > 0 ==> forall|q: int|
                    0 <= q < i && #[trigger] reminder_email(db0, org.associates@[q]) is Some ==> sent.contains(
                        reminder_email(db0, org.associates@[q])->Some_0,
                    ),
            decreases org.associates@.len() - i,
        {
            let id = org.associates[i];
            proof {
                assert(self.user_db.stored(id.key_bytes()) == db0.stored(id.key_bytes()));
            }
            let (found, read) = self.user_of_noting(id);
            if !read {
                complete = false;
            }
            let ghost b = db0.stored(id.key_bytes());
            match found {
                Some(user) => {
                    proof {
                        if reminder_email(db0, id) is Some {
                            let u = choose|u: UserView| User::valid_view(u) && #[trigger] record_bytes::<User>(u) == b->Some_0
                                && u.notifications;
                            assert(u == user@);
                        }
                    }
                    if should_notify(&user, count) {
                        let ghost u = user@;
                        proof {
                            assert(decodes_to::<User>(db0.stored(org.associates@[i as int].key_bytes())->Some_0, u));
                            assert(reminded(db0, org@, u.email));
                            assert forall|q: int|
                                0 <= q < i + 1 && (sent.contains(reminder_email(db0, org.associates@[q])->Some_0) || q == i)
                                    && reminder_email(db0, org.associates@[q]) is Some implies #[trigger] sent.push(
                                u.email,
                            ).contains(reminder_email(db0, org.associates@[q])->Some_0) by {
                                if q == i {
                                    assert(sent.push(u.email)[sent.len() as int] == u.email);
                                } else {
                                    let k = choose|k: int| 0 <= k < sent.len() && sent[k] == reminder_email(
                                        db0,
                                        org.associates@[q],
                                    )->Some_0;
                                    assert(sent.push(u.email)[k] == sent[k]);
                                }
                            }
                            sent = sent.push(u.email);
                        }
                        emails.push(user.email);
                    }
                },
                None => {},
            }
            i = i + 1;
        }
        let res = (emails, complete);
        proof {
            assert forall|j: int|
                res.1 && count > 0 && 0 <= j < org.associates@.len() && #[trigger] reminder_email(db0, org.associates@[j]) is Some
                    implies exists|i: int| 0 <= i < res.0@.len() && res.0@[i]@ == reminder_email(db0, org.associates@[j])->Some_0 by {
                let k = choose|k: int| 0 <= k < sent.len() && sent[k] == reminder_email(db0, org.associates@[j])->Some_0;
                assert(res.0@[k]@ == sent[k]);
            }
        }
        res
    }

    /// Reminds the teachers of every organisation due a reminder at `now`:
    /// returns the reminders to send, each organisation once, and records
    /// each as reminded at
    /// `now`; and whether no read or write failed, in which case no
    /// organisation due a reminder is left out and the organisations'
    /// records are exactly those of the reminded ones updated.
    pub fn due_reminders(&mut self, now: u128) -> (res: (Vec<Reminder>, bool))
        ensures
            final(self).login_db == old(self).login_db,
            final(self).user_db.contents() == old(self).user_db.contents(),
            final(self).user_db.failures() >= old(self).user_db.failures(),
            final(self).org_db.failures() >= old(self).org_db.failures(),
            !res.1 ==> final(self).user_db.failures() > old(self).user_db.failures() || final(self).org_db.failures() > old(
                self,
            ).org_db.failures(),
            final(self).section_db == old(self).section_db,
            final(self).auth_manager == old(self).auth_manager,
            final(self).link_manager == old(self).link_manager,
            forall|i: int| 0 <= i < res.0@.len() ==> #[trigger] reminder_owed(*old(self), res.0@[i], now, res.1),
            forall|i: int, j: int|
                0 <= i < j < res.0@.len() ==> #[trigger] res.0@[i].org_id != #[trigger] res.0@[j].org_id,
            res.1 ==> final(self).org_db.contents() == reminded_store(old(self).org_db.contents(), res.0@, now),
            res.1 ==> forall|k: Seq<u8>|
                k.len() == 16 && #[trigger] org_due_at(old(self).org_db.contents(), k, now) ==> exists|i: int|
                    0 <= i < res.0@.len() && res.0@[i].org_id.key_bytes() == k,
    {
        let ghost old_self = *self;
        let (mut orgs, listed) = self.org_walk();
        let ghost all = orgs@;
        let ghost c = self.org_db.contents();
        let mut reminders: Vec<Reminder> = Vec::new();
        let mut ok = listed;
        let ghost mut n: int = 0;
        let ghost mut idx: Seq<int> = Seq::empty();
        while orgs.len() > 0
            invariant
                0 <= n <= all.len(),
                orgs@ == all.skip(n),
                c == old_self.org_db.contents(),
                self.login_db == old_self.login_db,
                self.user_db.contents() == old_self.user_db.contents(),
                self.user_db.failures() >= old_self.user_db.failures(),
                self.org_db.failures() >= old_self.org_db.failures(),
                !ok ==> self.user_db.failures() > old_self.user_db.failures() || self.org_db.failures()
                    > old_self.org_db.failures(),
                self.section_db == old_self.section_db,
                self.auth_manager == old_self.auth_manager,
                self.link_manager == old_self.link_manager,
                self.awards == old_self.awards,
                forall|a: int|
                    0 <= a < all.len() ==> #[trigger] c.contains_key(be_bytes(all[a].0.0)) && match all[a].1 {
                        Some(u) => decodes_to::<Org>(c[be_bytes(all[a].0.0)], u@),
                        None => !is_record_bytes::<Org>(c[be_bytes(all[a].0.0)]),
                    },
                forall|a: int, b: int|
                    0 <= a < b < all.len() ==> #[trigger] be_bytes(all[a].0.0) != #[trigger] be_bytes(all[b].0.0),
                listed ==> forall|k: Seq<u8>|
                    #[trigger] c.contains_key(k) && k.len() == 16 ==> exists|a: int|
                        0 <= a < all.len() && be_bytes(all[a].0.0) == k,
                !listed ==> !ok,
                idx.len() == reminders@.len(),
                forall|i: int| 0 <= i < reminders@.len() ==> 0 <= #[trigger] idx[i] < n && reminders@[i].org_id == all[idx[i]].0,
                forall|i: int, j: int| 0 <= i < j < reminders@.len() ==> #[trigger] idx[i] < #[trigger] idx[j],
                forall|i: int| 0 <= i < reminders@.len() ==> #[trigger] reminder_owed(old_self, reminders@[i], now, ok),
                ok ==> self.org_db.contents() == reminded_store(c, reminders@, now),
                ok ==> forall|a: int|
                    0 <= a < n && #[trigger] org_due_at(c, be_bytes(all[a].0.0), now) ==> exists|i: int|
                        0 <= i < reminders@.len() && idx[i] == a,
            decreases orgs@.len(),
        {
            let (org_id, entry) = orgs.remove(0);
            proof {
                assert(all.skip(n)[0] == all[n]);
            }
            let ghost before = reminders@;
            let ghost old_idx = idx;
            let ghost was_ok = ok;
            let ghost contents_before = self.org_db.contents();
            proof {
                if org_due_at(c, be_bytes(all[n].0.0), now) {
                    let o = choose|o: OrgView|
                        Org::valid_view(o) && #[trigger] record_bytes::<Org>(o) == c[be_bytes(all[n].0.0)]
                            && o.last_notification + o.notification_interval < now;
                    assert(entry matches Some(v) && v@ == o);
                }
            }
            if let Some(mut org) = entry {
                if org.notification_due(now) {
                    let ghost read_as = org@;
                    let ghost pre_read = *self;
                    let (emails, read) = self.notification_emails(&org);
                    let subject = notification_subject(org.unreviewed_sections.len());
                    let last = org.last_notification;
                    org.mark_notified(now);
                    let ghost marked = org@;
                    let written = self.org_db.insert(&org_id, &org);
                    org.last_notification = last;
                    assert(org@ == read_as);
                    if !read || written.is_err() {
                        ok = false;
                    }
                    let reminder = Reminder { org_id, org, subject, emails };
                    proof {
                        lemma_emails_owed_by_contents(pre_read.user_db, old_self.user_db, reminder.org@, reminder.emails@, ok);
                        assert(emails_owed(old_self.user_db, reminder.org@, reminder.emails@, ok));
                        assert(reminder_owed(old_self, reminder, now, ok));
                    }
                    reminders.push(reminder);
                    proof {
                        idx = idx.push(n);
                        assert(reminders@.drop_last() =~= before);
                        assert forall|i: int| 0 <= i < reminders@.len() implies #[trigger] reminder_owed(
                            old_self,
                            reminders@[i],
                            now,
                            ok,
                        ) by {
                            if i < before.len() {
                                assert(reminders@[i] == before[i]);
                                assert(reminder_owed(old_self, before[i], now, was_ok));
                            }
                        }
                        assert forall|i: int| 0 <= i < reminders@.len() implies 0 <= #[trigger] idx[i] < n + 1
                            && reminders@[i].org_id == all[idx[i]].0 by {
                            if i < before.len() {
                                assert(reminders@[i] == before[i]);
                                assert(idx[i] == old_idx[i]);
                            }
                        }
                        assert forall|i: int, j: int| 0 <= i < j < reminders@.len() implies #[trigger] idx[i]
                            < #[trigger] idx[j] by {
                            if j < before.len() {
                                assert(idx[i] == old_idx[i]);
                                assert(idx[j] == old_idx[j]);
                            } else {
                                assert(idx[i] == old_idx[i]);
                            }
                        }
                        if ok {
                            assert(self.org_db.contents() == contents_before.insert(
                                org_id.key_bytes(),
                                record_bytes::<Org>(notified_at(read_as, now)),
                            ));
                        }
                    }
                }
            }
            proof {
                assert forall|a: int|
                    0 <= a < n + 1 && ok && #[trigger] org_due_at(c, be_bytes(all[a].0.0), now) implies exists|i: int|
                    0 <= i < reminders@.len() && idx[i] == a by {
                    if a == n {
                        assert(idx[idx.len() - 1] == a);
                    } else {
                        let i = choose|i: int| 0 <= i < old_idx.len() && old_idx[i] == a;
                        assert(idx[i] == a);
                    }
                }
                assert(orgs@ =~= all.skip(n + 1));
                n = n + 1;
            }
        }
        let res = (reminders, ok);
        proof {
            assert forall|i: int, j: int| 0 <= i < j < res.0@.len() implies #[trigger] res.0@[i].org_id
                != #[trigger] res.0@[j].org_id by {
                assert(idx[i] < idx[j]);
                assert(be_bytes(all[idx[i]].0.0) != be_bytes(all[idx[j]].0.0));
            }
            assert forall|k: Seq<u8>|
                res.1 && k.len() == 16 && #[trigger] org_due_at(c, k, now) implies exists|i: int|
                0 <= i < res.0@.len() && res.0@[i].org_id.key_bytes() == k by {
                let a = choose|a: int| 0 <= a < all.len() && be_bytes(all[a].0.0) == k;
                assert(org_due_at(c, be_bytes(all[a].0.0), now));
                let i = choose|i: int| 0 <= i < reminders@.len() && idx[i] == a;
                assert(res.0@[i].org_id == all[a].0);
            }
        }
        res
    }
}

/// An organisation recorded as reminded at `now` is next due a reminder
/// exactly once its interval has passed since `now`.
pub proof fn law_reminder_resets_due(o: OrgView, now: u128, later: u128)
    ensures
        (notified_at(o, now).last_notification + notified_at(o, now).notification_interval < later) <==> (now
            + o.notification_interval < later),
{
}

} // verus!
