use vstd::prelude::*;
use crate::codec::{Record, decodes_to, is_record_bytes, read_value, record_bytes};
use crate::data::{SharedData, member_org, org_changed_at_most, user_read_as};
use crate::db::StoreKey;
use crate::keys::UserKey;
use crate::forms::DeleteDataForm;
use crate::keys::be_bytes;
use crate::org::{Org, OrgView};
use crate::user::{User, UserView};
use vstd::utf8::encode_utf8;

verus! {

/// Whether `after` is the organisations' records `before` with every
/// organisation stored under an identifier removed: only records under keys
/// of another length stay, unchanged.
pub open spec fn orgs_purged(before: Map<Seq<u8>, Seq<u8>>, after: Map<Seq<u8>, Seq<u8>>) -> bool {
    &&& forall|k: Seq<u8>| #[trigger] after.contains_key(k) ==> before.contains_key(k) && k.len() != 16 && after[k] == before[k]
    &&& forall|k: Seq<u8>| #[trigger] before.contains_key(k) && k.len() != 16 ==> after.contains_key(k)
}

/// The organisation with no credits left.
pub open spec fn without_credits(o: OrgView) -> OrgView {
    OrgView { credits: 0, ..o }
}

/// Whether `after` is the organisations' records `before` with the credits
/// of every organisation stored under an identifier taken away: the same
/// keys, each organisation's record that of it without credits, and records
/// under keys of another length unchanged.
pub open spec fn credits_cleared(before: Map<Seq<u8>, Seq<u8>>, after: Map<Seq<u8>, Seq<u8>>) -> bool {
    &&& after.dom() == before.dom()
    &&& forall|k: Seq<u8>, o: OrgView|
        #[trigger] before.contains_key(k) && k.len() == 16 && Org::valid_view(o) && before[k] == #[trigger] record_bytes::<Org>(o)
            ==> after[k] == record_bytes::<Org>(without_credits(o))
    &&& forall|k: Seq<u8>| #[trigger] before.contains_key(k) && k.len() != 16 ==> after[k] == before[k]
}

/// Whether `after` is the users' records `before` with every pupil stored
/// under an identifier removed: records are only removed, every pupil's is,
/// and every other user's stays.
pub open spec fn pupils_deleted(before: Map<Seq<u8>, Seq<u8>>, after: Map<Seq<u8>, Seq<u8>>) -> bool {
    &&& forall|k: Seq<u8>| #[trigger] after.contains_key(k) ==> before.contains_key(k) && after[k] == before[k]
    &&& forall|k: Seq<u8>, u: UserView|
        #[trigger] before.contains_key(k) && User::valid_view(u) && before[k] == #[trigger] record_bytes::<User>(u) ==> (
        after.contains_key(k) <==> !(k.len() == 16 && u.user_agent is Client))
}

/// Whether the logins `after` are those `before` with some removed.
pub open spec fn logins_only_removed(before: Map<Seq<u8>, Seq<u8>>, after: Map<Seq<u8>, Seq<u8>>) -> bool {
    forall|e: Seq<u8>| #[trigger] after.contains_key(e) ==> before.contains_key(e) && after[e] == before[e]
}

/// Whether no login is left in `logins` under the email of a pupil stored
/// under an identifier in the users' records `users`.
pub open spec fn pupil_logins_removed(users: Map<Seq<u8>, Seq<u8>>, logins: Map<Seq<u8>, Seq<u8>>) -> bool {
    forall|k: Seq<u8>, u: UserView|
        #[trigger] users.contains_key(k) && k.len() == 16 && User::valid_view(u) && users[k] == #[trigger] record_bytes::<User>(u)
            && u.user_agent is Client ==> !logins.contains_key(encode_utf8(u.email))
}

/// Whether the organisations' records `after` are those `before`, the same
/// keys holding the same bytes, but for organisations to which a pupil
/// stored in the users' records `users` belongs.
pub open spec fn orgs_changed_by_pupils(
    users: Map<Seq<u8>, Seq<u8>>,
    before: Map<Seq<u8>, Seq<u8>>,
    after: Map<Seq<u8>, Seq<u8>>,
) -> bool {
    &&& after.dom() == before.dom()
    &&& forall|k: Seq<u8>| #[trigger] after.contains_key(k) && after[k] != before[k] ==> exists|uk: UserKey, u: UserView|
        #[trigger] user_read_as(users, uk, u) && u.user_agent is Client && member_org(u.user_agent) is Some
            && member_org(u.user_agent)->Some_0.key_bytes() == k
}

impl SharedData {
    /// Removes every organisation stored under an identifier, and tells
    /// whether no read or removal failed.
    pub fn delete_all_orgs(&mut self) -> (res: bool)
        ensures
            final(self).login_db == old(self).login_db,
            final(self).user_db == old(self).user_db,
            final(self).section_db == old(self).section_db,
            final(self).auth_manager == old(self).auth_manager,
            final(self).link_manager == old(self).link_manager,
            res ==> orgs_purged(old(self).org_db.contents(), final(self).org_db.contents()),
            final(self).org_db.failures() >= old(self).org_db.failures(),
            !res ==> final(self).org_db.failures() > old(self).org_db.failures(),
    {
        let ghost old_self = *self;
        let (mut orgs, listed) = self.org_walk();
        let ghost all = orgs@;
        let ghost c = self.org_db.contents();
        let mut ok = listed;
        let ghost mut gone: Set<Seq<u8>> = Set::empty();
        let ghost mut n: int = 0;
        while orgs.len() > 0
            invariant
                0 <= n <= all.len(),
                orgs@ == all.skip(n),
                c == old_self.org_db.contents(),
                self.login_db == old_self.login_db,
                self.user_db == old_self.user_db,
                self.section_db == old_self.section_db,
                self.auth_manager == old_self.auth_manager,
                self.link_manager == old_self.link_manager,
                listed ==> forall|k: Seq<u8>|
                    #[trigger] c.contains_key(k) && k.len() == 16 ==> exists|a: int|
                        0 <= a < all.len() && be_bytes(all[a].0.0) == k,
                !listed ==> !ok,
                self.org_db.failures() >= old_self.org_db.failures(),
                !ok ==> self.org_db.failures() > old_self.org_db.failures(),
                forall|a: int| 0 <= a < n ==> gone.contains(#[trigger] be_bytes(all[a].0.0)),
                forall|k: Seq<u8>| #[trigger] gone.contains(k) ==> k.len() == 16,
                ok ==> self.org_db.contents() == c.remove_keys(gone),
            decreases orgs@.len(),
        {
            let (org_id, _) = orgs.remove(0);
            proof {
                assert(all.skip(n)[0] == all[n]);
            }
            let ghost before = self.org_db.contents();
            match self.org_db.remove_silent(&org_id) {
                Ok(()) => {},
                Err(_) => {
                    ok = false;
                },
            }
            proof {
                if ok {
                    assert(c.remove_keys(gone).remove(be_bytes(org_id.0)) =~= c.remove_keys(gone.insert(be_bytes(org_id.0))));
                }
                gone = gone.insert(be_bytes(org_id.0));
                assert(orgs@ =~= all.skip(n + 1));
                n = n + 1;
            }
        }
        proof {
            if ok {
                let after = self.org_db.contents();
                assert forall|k: Seq<u8>| #[trigger] c.contains_key(k) && k.len() == 16 implies gone.contains(k) by {
                    let a = choose|a: int| 0 <= a < all.len() && be_bytes(all[a].0.0) == k;
                    assert(gone.contains(be_bytes(all[a].0.0)));
                }
                assert(orgs_purged(c, after));
            }
        }
        ok
    }

    /// Takes away the credits of every organisation stored under an
    /// identifier, and tells whether no read or write failed.
    pub fn clear_credits(&mut self) -> (res: bool)
        ensures
            final(self).login_db == old(self).login_db,
            final(self).user_db == old(self).user_db,
            final(self).section_db == old(self).section_db,
            final(self).auth_manager == old(self).auth_manager,
            final(self).link_manager == old(self).link_manager,
            res ==> credits_cleared(old(self).org_db.contents(), final(self).org_db.contents()),
            final(self).org_db.failures() >= old(self).org_db.failures(),
            !res ==> final(self).org_db.failures() > old(self).org_db.failures(),
    {
        let ghost old_self = *self;
        let (mut orgs, listed) = self.org_walk();
        let ghost all = orgs@;
        let ghost c = self.org_db.contents();
        let mut ok = listed;
        let ghost mut expected: Map<Seq<u8>, Seq<u8>> = c;
        let ghost mut n: int = 0;
        while orgs.len() > 0
            invariant
                0 <= n <= all.len(),
                orgs@ == all.skip(n),
                c == old_self.org_db.contents(),
                self.login_db == old_self.login_db,
                self.user_db == old_self.user_db,
                self.section_db == old_self.section_db,
                self.auth_manager == old_self.auth_manager,
                self.link_manager == old_self.link_manager,
                forall|a: int|
                    0 <= a < all.len() ==> #[trigger] c.contains_key(be_bytes(all[a].0.0)) && match all[a].1 {
                        Some(u) => decodes_to::<Org>(c[be_bytes(all[a].0.0)], u@),
                        None => !is_record_bytes::<Org>(c[be_bytes(all[a].0.0)]),
                    },
                forall|a: int, b: int|
                    0 <= a < b < all.len() ==> #[trigger] be_bytes(all[a].0.0) != #[trigger] be_bytes(all[b].0.0),
                listed ==> forall|k: Seq<u8>|
                    #[trigger] c.contains_key(k) && k.len() == 16 ==> exists|a: int|
                        0 <= a < all.len() && be_bytes(all[a].0.0) == k,
                !listed ==> !ok,
                self.org_db.failures() >= old_self.org_db.failures(),
                !ok ==> self.org_db.failures() > old_self.org_db.failures(),
                expected.dom() == c.dom(),
                forall|a: int|
                    0 <= a < n && #[trigger] all[a].1 is Some ==> expected[be_bytes(all[a].0.0)] == record_bytes::<Org>(
                        without_credits(all[a].1->Some_0@),
                    ),
                forall|a: int| n <= a < all.len() ==> expected[#[trigger] be_bytes(all[a].0.0)] == c[be_bytes(all[a].0.0)],
                forall|k: Seq<u8>| #[trigger] c.contains_key(k) && k.len() != 16 ==> expected[k] == c[k],
                ok ==> self.org_db.contents() == expected,
            decreases orgs@.len(),
        {
            let (org_id, entry) = orgs.remove(0);
            proof {
                assert(all.skip(n)[0] == all[n]);
            }
            let ghost before = expected;
            match entry {
                Some(mut org) => {
                    let ghost read_as = org@;
                    org.credits = 0;
                    assert(org@ == without_credits(read_as));
                    match self.org_db.insert(&org_id, &org) {
                        Ok(()) => {},
                        Err(_) => {
                            ok = false;
                        },
                    }
                    proof {
                        expected = before.insert(be_bytes(org_id.0), record_bytes::<Org>(without_credits(read_as)));
                        assert(c.contains_key(be_bytes(all[n].0.0)));
                        assert(expected.dom() =~= c.dom());
                        assert forall|a: int|
                            0 <= a < n + 1 && #[trigger] all[a].1 is Some implies expected[be_bytes(all[a].0.0)]
                                == record_bytes::<Org>(without_credits(all[a].1->Some_0@)) by {
                            if a < n {
                                assert(be_bytes(all[a].0.0) != be_bytes(all[n].0.0));
                            }
                        }
                        assert forall|a: int| n + 1 <= a < all.len() implies expected[#[trigger] be_bytes(all[a].0.0)]
                            == c[be_bytes(all[a].0.0)] by {
                            assert(be_bytes(all[n].0.0) != be_bytes(all[a].0.0));
                        }
                    }
                },
                None => {},
            }
            proof {
                assert(orgs@ =~= all.skip(n + 1));
                n = n + 1;
            }
        }
        proof {
            if ok {
                let after = self.org_db.contents();
                assert forall|k: Seq<u8>, o: OrgView|
                    #[trigger] c.contains_key(k) && k.len() == 16 && Org::valid_view(o) && c[k] == #[trigger] record_bytes::<Org>(o)
                        implies after[k] == record_bytes::<Org>(without_credits(o)) by {
                    let a = choose|a: int| 0 <= a < all.len() && be_bytes(all[a].0.0) == k;
                    assert(c.contains_key(be_bytes(all[a].0.0)));
                    assert(all[a].1 is Some);
                }
            }
        }
        ok
    }

    /// Deletes every pupil stored under an identifier, each as `delete_user`
    /// does, and tells whether no read or removal of a user failed.
    pub fn delete_pupils(&mut self) -> (res: bool)
        ensures
            final(self).section_db == old(self).section_db,
            final(self).auth_manager == old(self).auth_manager,
            final(self).link_manager == old(self).link_manager,
            res ==> pupils_deleted(old(self).user_db.contents(), final(self).user_db.contents()),
            final(self).user_db.failures() >= old(self).user_db.failures(),
            !res ==> final(self).user_db.failures() > old(self).user_db.failures(),
            final(self).login_db.failures() >= old(self).login_db.failures(),
            final(self).org_db.failures() >= old(self).org_db.failures(),
            final(self).login_db.failures() == old(self).login_db.failures() ==> logins_only_removed(
                old(self).login_db.logins(),
                final(self).login_db.logins(),
            ),
            res && final(self).login_db.failures() == old(self).login_db.failures() ==> pupil_logins_removed(
                old(self).user_db.contents(),
                final(self).login_db.logins(),
            ),
            res && final(self).org_db.failures() == old(self).org_db.failures() ==> orgs_changed_by_pupils(
                old(self).user_db.contents(),
                old(self).org_db.contents(),
                final(self).org_db.contents(),
            ),
    {
        let ghost old_self = *self;
        let (mut users, listed) = self.user_walk();
        let ghost all = users@;
        let ghost c = self.user_db.contents();
        let mut ok = listed;
        let ghost mut gone: Set<Seq<u8>> = Set::empty();
        let ghost mut n: int = 0;
        while users.len() > 0
            invariant
                0 <= n <= all.len(),
                users@ == all.skip(n),
                c == old_self.user_db.contents(),
                self.section_db == old_self.section_db,
                self.auth_manager == old_self.auth_manager,
                self.link_manager == old_self.link_manager,
                forall|a: int|
                    0 <= a < all.len() ==> #[trigger] c.contains_key(be_bytes(all[a].0.0)) && match all[a].1 {
                        Some(u) => decodes_to::<User>(c[be_bytes(all[a].0.0)], u@),
                        None => !is_record_bytes::<User>(c[be_bytes(all[a].0.0)]),
                    },
                listed ==> forall|k: Seq<u8>|
                    #[trigger] c.contains_key(k) && k.len() == 16 ==> exists|a: int|
                        0 <= a < all.len() && be_bytes(all[a].0.0) == k,
                !listed ==> !ok,
                forall|k: Seq<u8>| #[trigger] gone.contains(k) ==> k.len() == 16 && c.contains_key(k) && forall|r: UserView|
                    User::valid_view(r) && #[trigger] record_bytes::<User>(r) == c[k] ==> r.user_agent is Client,
                forall|a: int|
                    0 <= a < n && (#[trigger] all[a].1 matches Some(u) && u@.user_agent is Client) ==> gone.contains(
                        be_bytes(all[a].0.0),
                    ),
                ok ==> self.user_db.contents() == c.remove_keys(gone),
                self.user_db.failures() >= old_self.user_db.failures(),
                !ok ==> self.user_db.failures() > old_self.user_db.failures(),
                forall|a: int|
                    0 <= a < all.len() && #[trigger] all[a].1 is Some ==> read_value::<User>(c[be_bytes(all[a].0.0)])
                        == Some(all[a].1->Some_0@),
                self.login_db.failures() >= old_self.login_db.failures(),
                self.org_db.failures() >= old_self.org_db.failures(),
                self.login_db.failures() == old_self.login_db.failures() ==> logins_only_removed(
                    old_self.login_db.logins(),
                    self.login_db.logins(),
                ),
                ok && self.login_db.failures() == old_self.login_db.failures() ==> forall|a: int, u: UserView|
                    0 <= a < n && User::valid_view(u) && c[be_bytes(#[trigger] all[a].0.0)] == #[trigger] record_bytes::<User>(u)
                        && u.user_agent is Client ==> !self.login_db.logins().contains_key(encode_utf8(u.email)),
                forall|a: int, b: int|
                    0 <= a < b < all.len() ==> #[trigger] be_bytes(all[a].0.0) != #[trigger] be_bytes(all[b].0.0),
                forall|k: Seq<u8>| #[trigger] gone.contains(k) ==> exists|a: int| 0 <= a < n && be_bytes(all[a].0.0) == k,
                ok && self.org_db.failures() == old_self.org_db.failures() ==> orgs_changed_by_pupils(
                    c,
                    old_self.org_db.contents(),
                    self.org_db.contents(),
                ),
            decreases users@.len(),
        {
            let (user_id, entry) = users.remove(0);
            proof {
                assert(all.skip(n)[0] == all[n]);
            }
            let ghost pre = *self;
            let ghost was_ok = ok;
            match entry {
                Some(user) => {
                    if user.user_agent.is_client() {
                        proof {
                            assert(c.contains_key(be_bytes(all[n].0.0)));
                            if ok {
                                assert(!gone.contains(be_bytes(user_id.0))) by {
                                    if gone.contains(be_bytes(user_id.0)) {
                                        let a = choose|a: int| 0 <= a < n && be_bytes(all[a].0.0) == be_bytes(user_id.0);
                                        assert(be_bytes(all[a].0.0) != be_bytes(all[n].0.0));
                                    }
                                }
                                assert(self.user_db.stored(be_bytes(user_id.0)) == Some(c[be_bytes(user_id.0)]));
                                assert(all[n].1 is Some);
                                assert(read_value::<User>(c[be_bytes(user_id.0)]) == Some(user@));
                                assert(crate::data::user_read_as(self.user_db.contents(), user_id, user@));
                            }
                        }
                        let deleted = self.delete_user(&user_id);
                        match deleted {
                            Ok(()) => {},
                            Err(_) => {
                                ok = false;
                            },
                        }
                        proof {
                            if self.login_db.failures() == old_self.login_db.failures() {
                                assert(pre.login_db.failures() == old_self.login_db.failures());
                                let k = be_bytes(user_id.0);
                                if deleted is Ok && pre.user_db.contents().contains_key(k) {
                                    if let Some(u2) = read_value::<User>(pre.user_db.contents()[k]) {
                                        assert(crate::data::user_read_as(pre.user_db.contents(), user_id, u2));
                                        assert(self.login_db.logins() == pre.login_db.logins().remove(encode_utf8(u2.email)));
                                    } else {
                                        assert(crate::data::unreadable::<User>(pre.user_db.contents(), k));
                                    }
                                } else {
                                    assert(self.login_db == pre.login_db);
                                }
                                assert(logins_only_removed(old_self.login_db.logins(), self.login_db.logins()));
                            }
                            if was_ok && ok && self.org_db.failures() == old_self.org_db.failures() {
                                assert(pre.org_db.failures() == old_self.org_db.failures());
                                assert(user_read_as(pre.user_db.contents(), user_id, user@));
                                assert(user_read_as(c, user_id, user@));
                                let before = old_self.org_db.contents();
                                let mid = pre.org_db.contents();
                                let after = self.org_db.contents();
                                assert(org_changed_at_most(mid, after, member_org(user@.user_agent)));
                                assert(after.dom() =~= before.dom());
                                assert forall|k: Seq<u8>| #[trigger] after.contains_key(k) && after[k] != before[k] implies exists|
                                    uk: UserKey,
                                    u: UserView,
                                |
                                    #[trigger] user_read_as(c, uk, u) && u.user_agent is Client && member_org(u.user_agent) is Some
                                        && member_org(u.user_agent)->Some_0.key_bytes() == k by {
                                    if after[k] != mid[k] {
                                        assert(user_read_as(c, user_id, user@));
                                    } else {
                                        assert(mid.contains_key(k) && mid[k] != before[k]);
                                    }
                                }
                            }
                            if was_ok && self.login_db.failures() == old_self.login_db.failures() {
                                assert(pre.login_db.failures() == old_self.login_db.failures());
                                assert forall|a: int, u: UserView|
                                    0 <= a < n + 1 && User::valid_view(u) && c[be_bytes(#[trigger] all[a].0.0)]
                                        == #[trigger] record_bytes::<User>(u) && u.user_agent is Client && ok
                                        implies !self.login_db.logins().contains_key(encode_utf8(u.email)) by {
                                    if a == n {
                                        assert(decodes_to::<User>(c[be_bytes(all[n].0.0)], user@));
                                        assert(u == user@);
                                    }
                                }
                            }
                            assert(c.contains_key(be_bytes(all[n].0.0)));
                            if ok {
                                assert(c.remove_keys(gone).remove(be_bytes(user_id.0)) =~= c.remove_keys(
                                    gone.insert(be_bytes(user_id.0)),
                                ));
                            }
                            gone = gone.insert(be_bytes(user_id.0));
                        }
                    }
                },
                None => {},
            }
            proof {
                assert(users@ =~= all.skip(n + 1));
                n = n + 1;
            }
        }
        proof {
            if ok {
                let after = self.user_db.contents();
                assert forall|k: Seq<u8>, u: UserView|
                    #[trigger] c.contains_key(k) && User::valid_view(u) && c[k] == #[trigger] record_bytes::<User>(u) implies (
                    after.contains_key(k) <==> !(k.len() == 16 && u.user_agent is Client)) by {
                    if k.len() == 16 && u.user_agent is Client {
                        let a = choose|a: int| 0 <= a < all.len() && be_bytes(all[a].0.0) == k;
                        assert(c.contains_key(be_bytes(all[a].0.0)));
                        assert(all[a].1 is Some);
                    }
                }
            }
        }
        ok
    }

    /// Deletes the data the deletion form asks for: nothing when nothing is
    /// asked for; every organisation when they are; else the credits, and
    /// the pupils, as asked for. Tells whether no read or write failed.
    pub fn delete_data(&mut self, form: &DeleteDataForm) -> (res: bool)
        ensures
            final(self).section_db == old(self).section_db,
            final(self).auth_manager == old(self).auth_manager,
            final(self).link_manager == old(self).link_manager,
            form.delete_orgs is None && form.delete_credits is None && form.delete_pupils is None ==> res
                && final(self).login_db == old(self).login_db && final(self).user_db == old(self).user_db
                && final(self).org_db == old(self).org_db,
            form.delete_orgs is Some ==> final(self).login_db == old(self).login_db && final(self).user_db == old(
                self,
            ).user_db && (res ==> orgs_purged(old(self).org_db.contents(), final(self).org_db.contents())),
            form.delete_orgs is None && form.delete_credits is Some && form.delete_pupils is None ==> final(self).login_db
                == old(self).login_db && final(self).user_db == old(self).user_db && (res ==> credits_cleared(
                old(self).org_db.contents(),
                final(self).org_db.contents(),
            )),
            form.delete_orgs is None && form.delete_pupils is Some ==> (res ==> pupils_deleted(
                old(self).user_db.contents(),
                final(self).user_db.contents(),
            )),
            form.delete_orgs is None && form.delete_pupils is Some ==> (final(self).login_db.failures() == old(
                self,
            ).login_db.failures() ==> logins_only_removed(old(self).login_db.logins(), final(self).login_db.logins())),
            form.delete_orgs is None && form.delete_pupils is Some ==> (res && final(self).login_db.failures() == old(
                self,
            ).login_db.failures() ==> pupil_logins_removed(old(self).user_db.contents(), final(self).login_db.logins())),
            form.delete_orgs is None && form.delete_credits is None && form.delete_pupils is Some ==> (res
                && final(self).org_db.failures() == old(self).org_db.failures() ==> orgs_changed_by_pupils(
                old(self).user_db.contents(),
                old(self).org_db.contents(),
                final(self).org_db.contents(),
            )),
            final(self).user_db.failures() >= old(self).user_db.failures(),
            final(self).org_db.failures() >= old(self).org_db.failures(),
            final(self).login_db.failures() >= old(self).login_db.failures(),
            !res ==> final(self).user_db.failures() > old(self).user_db.failures() || final(self).org_db.failures() > old(
                self,
            ).org_db.failures(),
    {
        if form.nothing_selected() {
            return true;
        }
        if form.delete_orgs.is_some() {
            return self.delete_all_orgs();
        }
        let mut ok = true;
        if form.delete_credits.is_some() {
            ok = self.clear_credits();
        }
        if form.delete_pupils.is_some() {
            let deleted = self.delete_pupils();
            ok = ok && deleted;
        }
        ok
    }
}

} // verus!
