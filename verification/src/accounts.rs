use vstd::prelude::*;
use crate::dir;
use crate::keys::UserKey;
use crate::user::{AgentView, User, UserAgent};

verus! {

/// The rank of an account's level of privilege.
pub open spec fn rank_of(e: (UserKey, User)) -> int {
    e.1.user_agent.level().rank()
}

/// Whether an account has the given rank.
pub open spec fn has_rank(r: int) -> spec_fn((UserKey, User)) -> bool {
    |e: (UserKey, User)| rank_of(e) == r
}

/// Whether the accounts go from the highest rank to the lowest.
pub open spec fn by_rank_descending(s: Seq<(UserKey, User)>) -> bool {
    forall|i: int, j: int| 0 <= i <= j < s.len() ==> rank_of(#[trigger] s[i]) >= rank_of(#[trigger] s[j])
}

/// Whether `out` lists the accounts of `input` from the highest rank to the
/// lowest, the accounts of one rank in the order they came in.
pub open spec fn stably_ordered(input: Seq<(UserKey, User)>, out: Seq<(UserKey, User)>) -> bool {
    &&& by_rank_descending(out)
    &&& forall|r: int| #[trigger] out.filter(has_rank(r)) == input.filter(has_rank(r))
}

/// A list of which no account has rank `r` keeps none of them.
proof fn lemma_filter_none(s: Seq<(UserKey, User)>, r: int)
    requires
        forall|i: int| 0 <= i < s.len() ==> rank_of(#[trigger] s[i]) != r,
    ensures
        s.filter(has_rank(r)) == Seq::<(UserKey, User)>::empty(),
    decreases s.len(),
{
    if s.len() == 0 {
        reveal(Seq::filter);
    } else {
        let init = s.drop_last();
        assert forall|i: int| 0 <= i < init.len() implies rank_of(#[trigger] init[i]) != r by {
            assert(init[i] == s[i]);
        }
        lemma_filter_none(init, r);
        init.lemma_filter_push(s.last(), has_rank(r));
        assert(init.push(s.last()) =~= s);
    }
}

/// Inserting an account after every account of at least its rank and
/// before every account of a lower rank adds it at the end of its rank's
/// accounts and changes no other rank's.
proof fn lemma_insert_by_rank(s: Seq<(UserKey, User)>, idx: int, x: (UserKey, User), r: int)
    requires
        0 <= idx <= s.len(),
        forall|i: int| 0 <= i < idx ==> rank_of(#[trigger] s[i]) >= rank_of(x),
        forall|i: int| idx <= i < s.len() ==> rank_of(#[trigger] s[i]) < rank_of(x),
    ensures
        s.insert(idx, x).filter(has_rank(r)) == if rank_of(x) == r {
            s.filter(has_rank(r)).push(x)
        } else {
            s.filter(has_rank(r))
        },
{
    let a = s.take(idx);
    let b = s.skip(idx);
    let p = has_rank(r);
    assert(s =~= a + b);
    assert(s.insert(idx, x) =~= a.push(x) + b);
    Seq::filter_distributes_over_add(a, b, p);
    Seq::filter_distributes_over_add(a.push(x), b, p);
    a.lemma_filter_push(x, p);
    if rank_of(x) == r {
        assert forall|i: int| 0 <= i < b.len() implies rank_of(#[trigger] b[i]) != r by {
            assert(b[i] == s[idx + i]);
        }
        lemma_filter_none(b, r);
        assert(b.filter(p) =~= Seq::<(UserKey, User)>::empty());
        assert(a.filter(p).push(x) + b.filter(p) =~= (a.filter(p) + b.filter(p)).push(x));
    }
}

/// Orders accounts from the highest level of privilege to the lowest,
/// keeping the order in which accounts of one level came: each account is
/// inserted before the first one of a lower level.
pub fn order_by_privilege(unordered: Vec<(UserKey, User)>) -> (res: Vec<(UserKey, User)>)
    ensures
        stably_ordered(unordered@, res@),
        res@.len() == unordered@.len(),
{
    let ghost input = unordered@;
    let mut rest = unordered;
    let mut users: Vec<(UserKey, User)> = Vec::new();
    let ghost mut k: int = 0;
    proof {
        assert forall|r: int| #[trigger] users@.filter(has_rank(r)) == input.take(0).filter(has_rank(r)) by {
            reveal(Seq::filter);
        }
    }
    while rest.len() > 0
        invariant
            0 <= k <= input.len(),
            rest@ == input.skip(k),
            by_rank_descending(users@),
            users@.len() == k,
            forall|r: int| #[trigger] users@.filter(has_rank(r)) == input.take(k).filter(has_rank(r)),
        decreases rest@.len(),
    {
        let item = rest.remove(0);
        let mag = item.1.user_agent.privilege().magnitude();
        let mut idx: usize = 0;
        while idx < users.len() && users[idx].1.user_agent.privilege().magnitude() >= mag
            invariant
                idx <= users@.len(),
                mag == rank_of(item),
                forall|i: int| 0 <= i < idx ==> rank_of(#[trigger] users@[i]) >= mag,
            decreases users@.len() - idx,
        {
            idx = idx + 1;
        }
        let ghost before = users@;
        let ghost x = item;
        proof {
            assert forall|i: int| idx <= i < before.len() implies rank_of(#[trigger] before[i]) < rank_of(x) by {
                assert(rank_of(before[idx as int]) < rank_of(x));
                assert(rank_of(before[idx as int]) >= rank_of(before[i]));
            }
            assert(input.take(k + 1) =~= input.take(k).push(x)) by {
                assert(x == input.skip(k)[0]);
            }
            assert forall|r: int| #[trigger] before.insert(idx as int, x).filter(has_rank(r)) == input.take(k + 1).filter(
                has_rank(r),
            ) by {
                lemma_insert_by_rank(before, idx as int, x, r);
                input.take(k).lemma_filter_push(x, has_rank(r));
            }
        }
        users.insert(idx, item);
        proof {
            let after = users@;
            assert(after == before.insert(idx as int, x));
            assert forall|i: int, j: int| 0 <= i <= j < after.len() implies rank_of(#[trigger] after[i]) >= rank_of(
                #[trigger] after[j],
            ) by {
                if i < idx {
                    assert(after[i] == before[i]);
                    if j < idx {
                        assert(after[j] == before[j]);
                    } else if j > idx {
                        assert(after[j] == before[j - 1]);
                    }
                } else if i == idx {
                    if j > idx {
                        assert(after[j] == before[j - 1]);
                    }
                } else {
                    assert(after[i] == before[i - 1]);
                    assert(after[j] == before[j - 1]);
                }
            }
            assert(rest@ =~= input.skip(k + 1));
            k = k + 1;
        }
    }
    proof {
        assert(input.take(k) =~= input);
    }
    users
}

/// What `str::to_lowercase` makes of a text: each character replaced by
/// its lower-case mapping, as Unicode defines it.
pub uninterp spec fn lowercase(text: Seq<char>) -> Seq<char>;

/// `str::to_lowercase`: the text in lower case. Its value is the named
/// `lowercase` of the text.
#[verifier::external_body]
fn to_lower(s: &str) -> (res: String)
    ensures
        res@ == lowercase(s@),
{
    s.to_lowercase()
}

/// Whether `needle` occurs in `hay` as a run of consecutive characters.
pub open spec fn occurs_in(needle: Seq<char>, hay: Seq<char>) -> bool {
    exists|i: int| 0 <= i && i + needle.len() <= hay.len() && #[trigger] hay.subrange(i, i + needle.len()) == needle
}

/// `str::contains` with a text pattern: whether the text occurs in `hay`,
/// as std documents it.
#[verifier::external_body]
fn text_contains(hay: &str, needle: &str) -> (res: bool)
    ensures
        res == occurs_in(needle@, hay@),
{
    hay.contains(needle)
}

/// Whether an account answers a search: the search, in lower case, occurs
/// in the lower-case full name or in the email.
pub open spec fn answers_search(user: User, search: Seq<char>) -> bool {
    occurs_in(lowercase(search), lowercase(user.forename@ + " "@ + user.surname@)) || occurs_in(
        lowercase(search),
        user.email@,
    )
}

/// Whether the account answers the search.
pub fn matches_search(user: &User, search: &str) -> (res: bool)
    ensures
        res == answers_search(*user, search@),
{
    let name = to_lower(user.name().as_str());
    let span = to_lower(search);
    if text_contains(name.as_str(), span.as_str()) {
        true
    } else {
        text_contains(user.email.as_str(), span.as_str())
    }
}

/// Where an account's row leads: the organisations for the portal's
/// staff, the organisation of an administrator or teacher, the dashboard of
/// a pupil.
pub open spec fn target_url_text(user_id: UserKey, agent: AgentView) -> Seq<char> {
    match agent {
        AgentView::Owner | AgentView::Admin => dir::ORGS_PAGE@,
        AgentView::Organisation(org_id) | AgentView::Associate(org_id) => dir::org_path_text(org_id),
        AgentView::Client { org_id, .. } => dir::client_path_text(org_id, user_id),
    }
}

/// Where an account's row leads.
pub fn account_target_url(user_id: UserKey, agent: &UserAgent) -> (res: String)
    ensures
        res@ == target_url_text(user_id, agent@),
{
    match agent {
        UserAgent::Owner | UserAgent::Admin => dir::ORGS_PAGE.to_owned(),
        UserAgent::Organisation(org_id) | UserAgent::Associate(org_id) => dir::org_path(*org_id),
        UserAgent::Client { org_id, .. } => dir::client_path(*org_id, user_id),
    }
}

/// The name of an account's role.
pub open spec fn role_text(agent: AgentView) -> Seq<char> {
    match agent {
        AgentView::Owner => "Owner"@,
        AgentView::Admin => "Admin"@,
        AgentView::Organisation(_) => "Organisation Administrator"@,
        AgentView::Associate(_) => "Teacher"@,
        AgentView::Client { .. } => "Pupil"@,
    }
}

/// The name of an account's role.
pub fn role_name(agent: &UserAgent) -> (res: String)
    ensures
        res@ == role_text(agent@),
{
    match agent {
        UserAgent::Owner => "Owner".to_owned(),
        UserAgent::Admin => "Admin".to_owned(),
        UserAgent::Organisation(_) => "Organisation Administrator".to_owned(),
        UserAgent::Associate(_) => "Teacher".to_owned(),
        UserAgent::Client { .. } => "Pupil".to_owned(),
    }
}

/// Whether the delete button of an account's row is hidden from the viewer:
/// for the viewer's own account and for accounts of at least the viewer's
/// level.
pub fn delete_button_hidden(viewer_id: UserKey, viewer: &UserAgent, user_id: UserKey, agent: &UserAgent) -> (res: bool)
    ensures
        res == (user_id == viewer_id || agent.level().rank() >= viewer.level().rank()),
{
    user_id == viewer_id || agent.privilege().magnitude() >= viewer.privilege().magnitude()
}

/// Which accounts the accounts page lists: all of them, those answering a
/// search, or none.
#[derive(Debug, Clone, PartialEq)]
pub enum AccountListing {
    All,
    Search(String),
    Nothing,
}

/// Whether an account is listed.
pub open spec fn listed(listing: AccountListing, user: User) -> bool {
    match listing {
        AccountListing::All => true,
        AccountListing::Search(s) => answers_search(user, s@),
        AccountListing::Nothing => false,
    }
}

/// The readable accounts among the entries that are listed, in order.
pub open spec fn selected(entries: Seq<(UserKey, Option<User>)>, listing: AccountListing) -> Seq<(UserKey, User)>
    decreases entries.len(),
{
    if entries.len() == 0 {
        Seq::empty()
    } else {
        let rest = selected(entries.drop_last(), listing);
        match entries.last().1 {
            Some(u) => if listed(listing, u) {
                rest.push((entries.last().0, u))
            } else {
                rest
            },
            None => rest,
        }
    }
}

/// The keys of the unreadable entries, in order, when every account is
/// listed; none otherwise.
pub open spec fn unreadable(entries: Seq<(UserKey, Option<User>)>, listing: AccountListing) -> Seq<UserKey>
    decreases entries.len(),
{
    if entries.len() == 0 {
        Seq::empty()
    } else {
        let rest = unreadable(entries.drop_last(), listing);
        if entries.last().1 is None && listing is All {
            rest.push(entries.last().0)
        } else {
            rest
        }
    }
}

/// The rows of the accounts page: the listed accounts, from the highest
/// level of privilege to the lowest (accounts of one level in the order
/// they came), and, when all are listed, the keys of the entries that
/// could not be read.
pub fn accounts_listing(entries: Vec<(UserKey, Option<User>)>, listing: &AccountListing) -> (res: (Vec<(UserKey, User)>, Vec<UserKey>))
    ensures
        stably_ordered(selected(entries@, *listing), res.0@),
        res.1@ == unreadable(entries@, *listing),
{
    let ghost all = entries@;
    let mut rest = entries;
    let mut picked: Vec<(UserKey, User)> = Vec::new();
    let mut invalid: Vec<UserKey> = Vec::new();
    let ghost mut n: int = 0;
    while rest.len() > 0
        invariant
            0 <= n <= all.len(),
            rest@ == all.skip(n),
            picked@ == selected(all.take(n), *listing),
            invalid@ == unreadable(all.take(n), *listing),
        decreases rest@.len(),
    {
        let (user_id, entry) = rest.remove(0);
        proof {
            assert(all.skip(n)[0] == all[n]);
            assert(all.take(n + 1).drop_last() =~= all.take(n));
            assert(all.take(n + 1).last() == all[n]);
        }
        match entry {
            Some(user) => {
                let keep = match listing {
                    AccountListing::All => true,
                    AccountListing::Search(search) => matches_search(&user, search.as_str()),
                    AccountListing::Nothing => false,
                };
                if keep {
                    picked.push((user_id, user));
                }
            },
            None => {
                if let AccountListing::All = listing {
                    invalid.push(user_id);
                }
            },
        }
        proof {
            assert(rest@ =~= all.skip(n + 1));
            n = n + 1;
        }
    }
    proof {
        assert(all.take(n) =~= all);
    }
    (order_by_privilege(picked), invalid)
}

} // verus!
