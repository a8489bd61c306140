use vstd::prelude::*;
use crate::dir;
use crate::keys::{OrgKey, SectionKey, UserKey};
use crate::codec::{Fields, Record, lists};
use crate::db::Database;
use crate::section::texts;

verus! {

/// A person with an account.
#[derive(Debug, Clone)]
pub struct User {
    pub email: String,
    pub forename: String,
    pub surname: String,
    pub notifications: bool,
    pub user_agent: UserAgent,
}

/// The pupil with the section chosen at `index`.
pub open spec fn with_section(v: UserView, index: int, section_id: SectionKey) -> UserView {
    match v.user_agent {
        AgentView::Client { org_id, class, award, sections } => UserView {
            user_agent: AgentView::Client { org_id, class, award, sections: sections.update(index, Some(section_id)) },
            ..v
        },
        _ => v,
    }
}

impl User {
    /// Records the section chosen at `index` of a pupil's six sections;
    /// other users are left as they are.
    pub fn set_section(&mut self, index: usize, section_id: SectionKey)
        requires
            index < 6,
        ensures
            final(self)@ == with_section(old(self)@, index as int, section_id),
    {
        let ghost v = self@;
        match &self.user_agent {
            UserAgent::Client { org_id, class, award, sections } => {
                let s = *sections;
                let k = Some(section_id);
                let updated = [
                    if index == 0 { k } else { s[0] },
                    if index == 1 { k } else { s[1] },
                    if index == 2 { k } else { s[2] },
                    if index == 3 { k } else { s[3] },
                    if index == 4 { k } else { s[4] },
                    if index == 5 { k } else { s[5] },
                ];
                assert(updated@ =~= s@.update(index as int, k));
                let agent = UserAgent::Client { org_id: *org_id, class: class.clone(), award: award.clone(), sections: updated };
                self.user_agent = agent;
            },
            _ => {},
        }
    }

    /// The full name: forename, a space, surname.
    pub fn name(&self) -> (res: String)
        ensures
            res@ == self.forename@ + " "@ + self.surname@,
    {
        self.forename.clone().concat(" ").concat(self.surname.as_str())
    }
}

/// The levels of privilege, from most to least.
#[derive(Debug, Clone, Copy, PartialEq, Eq, Structural)]
pub enum Privilege {
    RootLevel,
    AdminLevel,
    OrgLevel,
    ClientLevel,
}

impl Privilege {
    /// The rank of a level: 1 for a pupil up to 4 for the root.
    pub open spec fn rank(self) -> int {
        match self {
            Privilege::ClientLevel => 1,
            Privilege::OrgLevel => 2,
            Privilege::AdminLevel => 3,
            Privilege::RootLevel => 4,
        }
    }

    /// The rank of the level as a number.
    pub fn magnitude(&self) -> (res: i32)
        ensures
            res == self.rank(),
    {
        match self {
            Privilege::ClientLevel => 1,
            Privilege::OrgLevel => 2,
            Privilege::AdminLevel => 3,
            Privilege::RootLevel => 4,
        }
    }

    /// Whether this is the root level.
    pub fn is_root(&self) -> (res: bool)
        ensures
            res == (*self is RootLevel),
    {
        if let Privilege::RootLevel = self {
            true
        } else {
            false
        }
    }
}

/// The kinds of user.
#[derive(Debug, Clone, PartialEq)]
pub enum UserAgent {
    Owner,
    Admin,
    Organisation(OrgKey),
    Associate(OrgKey),
    Client { org_id: OrgKey, class: String, award: String, sections: [Option<SectionKey>; 6] },
}

impl UserAgent {
    /// The organisation a user belongs to, if any.
    pub open spec fn org(&self) -> Option<OrgKey> {
        match self {
            UserAgent::Owner => None,
            UserAgent::Admin => None,
            UserAgent::Organisation(org_id) => Some(*org_id),
            UserAgent::Associate(org_id) => Some(*org_id),
            UserAgent::Client { org_id, .. } => Some(*org_id),
        }
    }

    /// The level of privilege of a kind of user.
    pub open spec fn level(&self) -> Privilege {
        match self {
            UserAgent::Owner => Privilege::RootLevel,
            UserAgent::Admin => Privilege::AdminLevel,
            UserAgent::Organisation(_) => Privilege::OrgLevel,
            UserAgent::Associate(_) => Privilege::OrgLevel,
            UserAgent::Client { .. } => Privilege::ClientLevel,
        }
    }

    /// The owner or a global administrator.
    pub open spec fn is_staff(&self) -> bool {
        self is Owner || self is Admin
    }

    /// The page a user lands on.
    pub open spec fn root_page_text(&self, user_id: UserKey) -> Seq<char> {
        match self {
            UserAgent::Owner => dir::ORGS_PAGE@,
            UserAgent::Admin => dir::ORGS_PAGE@,
            UserAgent::Organisation(org_id) => dir::org_path_text(*org_id),
            UserAgent::Associate(org_id) => dir::org_path_text(*org_id),
            UserAgent::Client { org_id, .. } => dir::client_path_text(*org_id, user_id),
        }
    }

    /// Whether this user may see the organisation.
    pub open spec fn may_view_org(&self, org_id: OrgKey) -> bool {
        match self {
            UserAgent::Owner => true,
            UserAgent::Admin => true,
            UserAgent::Organisation(agent_org_id) => *agent_org_id == org_id,
            UserAgent::Associate(agent_org_id) => *agent_org_id == org_id,
            UserAgent::Client { .. } => false,
        }
    }

    /// Whether this user may add teachers to the organisation.
    pub open spec fn may_add_associate(&self, org_id: OrgKey) -> bool {
        match self {
            UserAgent::Owner => true,
            UserAgent::Admin => true,
            UserAgent::Organisation(agent_org_id) => *agent_org_id == org_id,
            UserAgent::Associate(_) => false,
            UserAgent::Client { .. } => false,
        }
    }

    /// Whether this user may delete the other user.
    pub open spec fn may_delete_user(&self, other: &UserAgent) -> bool {
        match self {
            UserAgent::Owner => true,
            UserAgent::Admin => !other.is_staff(),
            UserAgent::Organisation(agent_org_id) => other.org() == Some(*agent_org_id),
            UserAgent::Associate(_) => false,
            UserAgent::Client { .. } => false,
        }
    }

    /// Whether this user may see the other user.
    pub open spec fn may_view_user(&self, other: &UserAgent) -> bool {
        match self {
            UserAgent::Owner => true,
            UserAgent::Admin => !other.is_staff(),
            UserAgent::Organisation(agent_org_id) => other.org() == Some(*agent_org_id),
            UserAgent::Associate(agent_org_id) => other.org() == Some(*agent_org_id),
            UserAgent::Client { .. } => false,
        }
    }

    /// Whether this is a pupil.
    pub fn is_client(&self) -> (res: bool)
        ensures
            res == (*self is Client),
    {
        if let UserAgent::Client { .. } = self {
            true
        } else {
            false
        }
    }

    /// Whether this is the owner.
    pub fn is_owner(&self) -> (res: bool)
        ensures
            res == (*self is Owner),
    {
        if let UserAgent::Owner = self {
            true
        } else {
            false
        }
    }

    /// The page this user lands on: the organisation list for the owner and
    /// administrators, the organisation's page for its staff, and the pupil's
    /// dashboard for a pupil.
    pub fn root_page(&self, user_id: UserKey) -> (res: String)
        ensures
            res@ == self.root_page_text(user_id),
    {
        match self {
            UserAgent::Owner => dir::ORGS_PAGE.to_owned(),
            UserAgent::Admin => dir::ORGS_PAGE.to_owned(),
            UserAgent::Organisation(org_id) => dir::org_path(*org_id),
            UserAgent::Associate(org_id) => dir::org_path(*org_id),
            UserAgent::Client { org_id, .. } => dir::client_path(*org_id, user_id),
        }
    }

    /// The level of privilege of this user.
    pub fn privilege(&self) -> (res: Privilege)
        ensures
            res == self.level(),
    {
        match self {
            UserAgent::Owner => Privilege::RootLevel,
            UserAgent::Admin => Privilege::AdminLevel,
            UserAgent::Organisation(_) => Privilege::OrgLevel,
            UserAgent::Associate(_) => Privilege::OrgLevel,
            UserAgent::Client { .. } => Privilege::ClientLevel,
        }
    }

    /// The kind of user in lower case, as used in sentences.
    pub fn lower_string(&self) -> (res: String)
        ensures
            res@ == match self {
                UserAgent::Owner => "owner"@,
                UserAgent::Admin => "admin"@,
                UserAgent::Organisation(_) => "organisation administrator"@,
                UserAgent::Associate(_) => "teacher"@,
                UserAgent::Client { .. } => "pupil"@,
            },
    {
        match self {
            UserAgent::Owner => "owner".to_owned(),
            UserAgent::Admin => "admin".to_owned(),
            UserAgent::Organisation(_) => "organisation administrator".to_owned(),
            UserAgent::Associate(_) => "teacher".to_owned(),
            UserAgent::Client { .. } => "pupil".to_owned(),
        }
    }

    /// Whether this user may delete accounts that cannot be read.
    pub fn can_delete_invalid_users(&self) -> (res: bool)
        ensures
            res == self.is_staff(),
    {
        match self {
            UserAgent::Owner => true,
            UserAgent::Admin => true,
            _ => false,
        }
    }

    /// Whether this user may list all accounts.
    pub fn can_view_accounts(&self) -> (res: bool)
        ensures
            res == self.is_staff(),
    {
        match self {
            UserAgent::Owner => true,
            UserAgent::Admin => true,
            _ => false,
        }
    }

    /// Whether this user may list and manage organisations.
    pub fn can_view_orgs(&self) -> (res: bool)
        ensures
            res == self.is_staff(),
    {
        match self {
            UserAgent::Owner => true,
            UserAgent::Admin => true,
            _ => false,
        }
    }

    /// Whether this user may delete organisations.
    pub fn can_delete_orgs(&self) -> (res: bool)
        ensures
            res == self.is_staff(),
    {
        match self {
            UserAgent::Owner => true,
            UserAgent::Admin => true,
            _ => false,
        }
    }

    /// Whether this user may see the given organisation: staff see all, an
    /// organisation's administrator and teachers see their own, pupils none.
    pub fn can_view_org(&self, org_id: &OrgKey) -> (res: bool)
        ensures
            res == self.may_view_org(*org_id),
    {
        match self {
            UserAgent::Owner => true,
            UserAgent::Admin => true,
            UserAgent::Organisation(agent_org_id) => agent_org_id == org_id,
            UserAgent::Associate(agent_org_id) => agent_org_id == org_id,
            UserAgent::Client { .. } => false,
        }
    }

    /// Whether this user may create global administrators: the owner alone.
    pub fn can_add_admin(&self) -> (res: bool)
        ensures
            res == (*self is Owner),
    {
        match self {
            UserAgent::Owner => true,
            _ => false,
        }
    }

    /// Whether this user may add teachers to the given organisation.
    pub fn can_add_associate(&self, org_id: &OrgKey) -> (res: bool)
        ensures
            res == self.may_add_associate(*org_id),
    {
        match self {
            UserAgent::Owner => true,
            UserAgent::Admin => true,
            UserAgent::Organisation(agent_org_id) => agent_org_id == org_id,
            UserAgent::Associate(_) => false,
            UserAgent::Client { .. } => false,
        }
    }

    /// Whether this user may delete the other user: the owner anyone, an
    /// administrator anyone but staff, an organisation's administrator the
    /// members of that organisation, nobody else anyone.
    pub fn can_delete_user(&self, other: &UserAgent) -> (res: bool)
        ensures
            res == self.may_delete_user(other),
    {
        match self {
            UserAgent::Owner => true,
            UserAgent::Admin => !other.is_owner() && !other.is_admin(),
            UserAgent::Organisation(agent_org_id) => match other.org_id() {
                Some(o) => o == *agent_org_id,
                None => false,
            },
            UserAgent::Associate(_) => false,
            UserAgent::Client { .. } => false,
        }
    }

    /// Whether this user may see the list of outstanding achievements.
    pub fn can_view_outstanding(&self) -> (res: bool)
        ensures
            res == self.is_staff(),
    {
        match self {
            UserAgent::Owner => true,
            UserAgent::Admin => true,
            UserAgent::Organisation(_) => false,
            UserAgent::Associate(_) => false,
            UserAgent::Client { .. } => false,
        }
    }

    /// Whether this user may see the other user: as for deletion, and
    /// teachers also see the members of their organisation.
    pub fn can_view_user(&self, other: &UserAgent) -> (res: bool)
        ensures
            res == self.may_view_user(other),
    {
        match self {
            UserAgent::Owner => true,
            UserAgent::Admin => !other.is_owner() && !other.is_admin(),
            UserAgent::Organisation(agent_org_id) => match other.org_id() {
                Some(o) => o == *agent_org_id,
                None => false,
            },
            UserAgent::Associate(agent_org_id) => match other.org_id() {
                Some(o) => o == *agent_org_id,
                None => false,
            },
            UserAgent::Client { .. } => false,
        }
    }

    /// The kind of user as shown on a profile.
    pub fn agent_string(&self) -> (res: String)
        ensures
            res@ == match self {
                UserAgent::Owner => "Owner"@,
                UserAgent::Admin => "Global Administrator"@,
                UserAgent::Organisation(_) => "Organisation Administrator"@,
                UserAgent::Associate(_) => "Teacher"@,
                UserAgent::Client { .. } => "Pupil"@,
            },
    {
        match self {
            UserAgent::Owner => "Owner".to_owned(),
            UserAgent::Admin => "Global Administrator".to_owned(),
            UserAgent::Organisation(_) => "Organisation Administrator".to_owned(),
            UserAgent::Associate(_) => "Teacher".to_owned(),
            UserAgent::Client { .. } => "Pupil".to_owned(),
        }
    }

    /// The organisation the user belongs to; none for staff.
    pub fn org_id(&self) -> (res: Option<OrgKey>)
        ensures
            res == self.org(),
    {
        match self {
            UserAgent::Owner => None,
            UserAgent::Admin => None,
            UserAgent::Organisation(org_id) => Some(*org_id),
            UserAgent::Associate(org_id) => Some(*org_id),
            UserAgent::Client { org_id, .. } => Some(*org_id),
        }
    }

    /// Whether this is a global administrator.
    pub fn is_admin(&self) -> (res: bool)
        ensures
            res == (*self is Admin),
    {
        if let UserAgent::Admin = self {
            true
        } else {
            false
        }
    }
}

/// Whoever may delete a user may also see that user.
pub proof fn law_delete_implies_view(agent: UserAgent, other: UserAgent)
    ensures
        agent.may_delete_user(&other) ==> agent.may_view_user(&other),
{
}

/// Pupils may neither see nor delete any user, nor see any organisation.
pub proof fn law_clients_see_nothing(agent: UserAgent, other: UserAgent, org_id: OrgKey)
    requires
        agent is Client,
    ensures
        !agent.may_view_user(&other),
        !agent.may_delete_user(&other),
        !agent.may_view_org(org_id),
{
}

/// Whoever may add teachers to an organisation may see it.
pub proof fn law_add_associate_implies_view_org(agent: UserAgent, org_id: OrgKey)
    ensures
        agent.may_add_associate(org_id) ==> agent.may_view_org(org_id),
{
}

/// Nobody but the owner may delete the owner or an administrator.
pub proof fn law_only_owner_deletes_staff(agent: UserAgent, other: UserAgent)
    requires
        other.is_staff(),
    ensures
        agent.may_delete_user(&other) <==> agent is Owner,
{
}

/// Who may delete whom: the owner anyone; an administrator every user who
/// is neither the owner nor an administrator (teachers, pupils and
/// organisations' administrators alike); an organisation's administrator
/// exactly the members of that organisation; teachers and pupils nobody.
pub proof fn law_who_deletes_whom(agent: UserAgent, other: UserAgent, o: OrgKey)
    ensures
        agent is Owner ==> agent.may_delete_user(&other),
        agent is Admin ==> (agent.may_delete_user(&other) <==> !(other is Owner) && !(other is Admin)),
        agent is Admin && (other is Associate || other is Client || other is Organisation) ==> agent.may_delete_user(
            &other,
        ),
        agent == UserAgent::Organisation(o) ==> (agent.may_delete_user(&other) <==> (other == UserAgent::Organisation(o)
            || other == UserAgent::Associate(o) || (other is Client && other->Client_org_id == o))),
        agent is Associate || agent is Client ==> !agent.may_delete_user(&other),
{
}

/// The ranks of the levels are 1 to 4, distinct, and the root level alone
/// has the highest rank.
pub proof fn law_rank_order(p: Privilege, q: Privilege)
    ensures
        1 <= p.rank() <= 4,
        p.rank() == q.rank() <==> p == q,
        p.rank() == 4 <==> p is RootLevel,
{
}

/// Members of an organisation can be seen by its staff: its administrator
/// and teachers see every member.
pub proof fn law_org_staff_see_members(agent: UserAgent, other: UserAgent)
    requires
        agent is Organisation || agent is Associate,
        other.org() is Some,
        agent.org() == other.org(),
    ensures
        agent.may_view_user(&other),
{
}

/// The model of a [`UserAgent`].
pub enum AgentView {
    Owner,
    Admin,
    Organisation(OrgKey),
    Associate(OrgKey),
    Client { org_id: OrgKey, class: Seq<char>, award: Seq<char>, sections: Seq<Option<SectionKey>> },
}

impl View for UserAgent {
    type V = AgentView;

    open spec fn view(&self) -> AgentView {
        match self {
            UserAgent::Owner => AgentView::Owner,
            UserAgent::Admin => AgentView::Admin,
            UserAgent::Organisation(o) => AgentView::Organisation(*o),
            UserAgent::Associate(o) => AgentView::Associate(*o),
            UserAgent::Client { org_id, class, award, sections } => AgentView::Client {
                org_id: *org_id,
                class: class@,
                award: award@,
                sections: sections@,
            },
        }
    }
}

/// The model of a [`User`].
pub struct UserView {
    pub email: Seq<char>,
    pub forename: Seq<char>,
    pub surname: Seq<char>,
    pub notifications: bool,
    pub user_agent: AgentView,
}

impl View for User {
    type V = UserView;

    open spec fn view(&self) -> UserView {
        UserView {
            email: self.email@,
            forename: self.forename@,
            surname: self.surname@,
            notifications: self.notifications,
            user_agent: self.user_agent@,
        }
    }
}

/// A flag as a number.
pub open spec fn flag(b: bool) -> u128 {
    if b {
        1
    } else {
        0
    }
}

/// The numbers that record a pupil's sections: for each, a presence flag
/// and its key (zero when absent).
pub open spec fn sections_nums(s: Seq<Option<SectionKey>>) -> Seq<u128> {
    Seq::new(
        (2 * s.len()) as nat,
        |j: int|
            if j % 2 == 0 {
                flag(s[j / 2] is Some)
            } else {
                match s[j / 2] {
                    Some(k) => k.0,
                    None => 0,
                }
            },
    )
}

/// The sections that numbers record, when every flag is 0 or 1.
pub open spec fn sections_from(n: Seq<u128>) -> Seq<Option<SectionKey>> {
    Seq::new(
        (n.len() / 2) as nat,
        |i: int|
            if n[2 * i] == 1 {
                Some(SectionKey(n[2 * i + 1]))
            } else {
                None
            },
    )
}

/// The numbers and texts a kind of user is stored as: a tag, then its
/// organisation, and for a pupil the class, award and sections.
pub open spec fn agent_fields(a: AgentView) -> (Seq<u128>, Seq<Seq<char>>) {
    match a {
        AgentView::Owner => (seq![0], Seq::empty()),
        AgentView::Admin => (seq![1], Seq::empty()),
        AgentView::Organisation(o) => (seq![2, o.0], Seq::empty()),
        AgentView::Associate(o) => (seq![3, o.0], Seq::empty()),
        AgentView::Client { org_id, class, award, sections } => (
            seq![4, org_id.0] + sections_nums(sections),
            seq![class, award],
        ),
    }
}

/// The kind of user that numbers and texts denote, if any.
pub open spec fn agent_from(n: Seq<u128>, t: Seq<Seq<char>>) -> Option<AgentView> {
    if n.len() == 1 && t.len() == 0 && n[0] == 0 {
        Some(AgentView::Owner)
    } else if n.len() == 1 && t.len() == 0 && n[0] == 1 {
        Some(AgentView::Admin)
    } else if n.len() == 2 && t.len() == 0 && n[0] == 2 {
        Some(AgentView::Organisation(OrgKey(n[1])))
    } else if n.len() == 2 && t.len() == 0 && n[0] == 3 {
        Some(AgentView::Associate(OrgKey(n[1])))
    } else if n.len() == 14 && t.len() == 2 && n[0] == 4 && (forall|i: int|
        0 <= i < 6 ==> #[trigger] n[2 + 2 * i] <= 1) {
        Some(
            AgentView::Client {
                org_id: OrgKey(n[1]),
                class: t[0],
                award: t[1],
                sections: sections_from(n.skip(2)),
            },
        )
    } else {
        None
    }
}

/// A pupil keeps six sections.
pub open spec fn agent_valid(a: AgentView) -> bool {
    match a {
        AgentView::Client { sections, .. } => sections.len() == 6,
        _ => true,
    }
}

/// A kind of user is read back from the numbers and texts it is stored as.
pub proof fn lemma_agent_round_trip(a: AgentView)
    requires
        agent_valid(a),
    ensures
        agent_from(agent_fields(a).0, agent_fields(a).1) == Some(a),
{
    match a {
        AgentView::Client { org_id, class, award, sections } => {
            let n = agent_fields(a).0;
            assert(n.len() == 14);
            assert forall|i: int| 0 <= i < 6 implies #[trigger] n[2 + 2 * i] <= 1 by {
                assert(n[2 + 2 * i] == sections_nums(sections)[2 * i]);
            }
            assert(n.skip(2) =~= sections_nums(sections));
            assert forall|i: int| 0 <= i < 6 implies #[trigger] sections_from(sections_nums(sections))[i] == sections[i] by {
                assert(sections_nums(sections)[2 * i] == flag(sections[i] is Some));
                assert(sections_nums(sections)[2 * i + 1] == match sections[i] {
                    Some(k) => k.0,
                    None => 0,
                });
            }
            assert(sections_from(sections_nums(sections)) =~= sections);
        },
        _ => {},
    }
}

/// Appends the numbers and texts a kind of user is stored as.
pub(crate) fn push_agent_fields(a: &UserAgent, nums: &mut Vec<u128>, ts: &mut Vec<String>)
    ensures
        final(nums)@ == old(nums)@ + agent_fields(a@).0,
        texts(final(ts)@) == texts(old(ts)@) + agent_fields(a@).1,
{
    let ghost n0 = nums@;
    let ghost t0 = texts(ts@);
    match a {
        UserAgent::Owner => {
            nums.push(0);
        },
        UserAgent::Admin => {
            nums.push(1);
        },
        UserAgent::Organisation(o) => {
            nums.push(2);
            nums.push(o.0);
        },
        UserAgent::Associate(o) => {
            nums.push(3);
            nums.push(o.0);
        },
        UserAgent::Client { org_id, class, award, sections } => {
            nums.push(4);
            nums.push(org_id.0);
            let mut i: usize = 0;
            while i < 6
                invariant
                    i <= 6,
                    sections@.len() == 6,
                    nums@ == n0 + seq![4u128, org_id.0] + sections_nums(sections@).take(2 * i),
                decreases 6 - i,
            {
                match sections[i] {
                    Some(k) => {
                        nums.push(1);
                        nums.push(k.0);
                    },
                    None => {
                        nums.push(0);
                        nums.push(0);
                    },
                }
                assert(sections_nums(sections@).take(2 * (i + 1)) =~= sections_nums(sections@).take(2 * i)
                    + seq![sections_nums(sections@)[2 * i as int], sections_nums(sections@)[2 * i + 1]]);
                i = i + 1;
            }
            assert(sections_nums(sections@).take(12) =~= sections_nums(sections@));
            ts.push(class.clone());
            ts.push(award.clone());
        },
    }
    assert(nums@ =~= n0 + agent_fields(a@).0);
    assert(texts(ts@) =~= t0 + agent_fields(a@).1);
}

/// Reads the kind of user stored in `nums` from position `ns` on and in
/// `ts` from position `tp` on.
pub(crate) fn agent_from_fields(nums: &Vec<u128>, ns: usize, ts: &Vec<String>, tp: usize) -> (res: Option<UserAgent>)
    requires
        ns <= nums@.len(),
        tp <= ts@.len(),
    ensures
        match agent_from(nums@.skip(ns as int), texts(ts@).skip(tp as int)) {
            Some(a) => res is Some && res->Some_0@ == a,
            None => res is None,
        },
{
    let n = nums.len() - ns;
    let t = ts.len() - tp;
    let ghost sn = nums@.skip(ns as int);
    let ghost st = texts(ts@).skip(tp as int);
    if n == 1 && t == 0 && nums[ns] == 0 {
        Some(UserAgent::Owner)
    } else if n == 1 && t == 0 && nums[ns] == 1 {
        Some(UserAgent::Admin)
    } else if n == 2 && t == 0 && nums[ns] == 2 {
        Some(UserAgent::Organisation(OrgKey(nums[ns + 1])))
    } else if n == 2 && t == 0 && nums[ns] == 3 {
        Some(UserAgent::Associate(OrgKey(nums[ns + 1])))
    } else if n == 14 && t == 2 && nums[ns] == 4 {
        let mut i: usize = 0;
        while i < 6
            invariant
                i <= 6,
                n == 14,
                ns + 14 == nums@.len(),
                nums@.len() <= usize::MAX,
                sn == nums@.skip(ns as int),
                forall|j: int| 0 <= j < i ==> #[trigger] sn[2 + 2 * j] <= 1,
            decreases 6 - i,
        {
            if nums[ns + 2 + 2 * i] > 1 {
                assert(sn[2 + 2 * i] > 1);
                return None;
            }
            i = i + 1;
        }
        let sections = [
            section_at(nums, ns + 2),
            section_at(nums, ns + 4),
            section_at(nums, ns + 6),
            section_at(nums, ns + 8),
            section_at(nums, ns + 10),
            section_at(nums, ns + 12),
        ];
        let res = UserAgent::Client {
            org_id: OrgKey(nums[ns + 1]),
            class: ts[tp].clone(),
            award: ts[tp + 1].clone(),
            sections,
        };
        assert(sections@ =~= sections_from(sn.skip(2)));
        Some(res)
    } else {
        None
    }
}

/// The section recorded at position `p` of the numbers.
fn section_at(nums: &Vec<u128>, p: usize) -> (res: Option<SectionKey>)
    requires
        p + 1 < nums@.len(),
    ensures
        res == if nums@[p as int] == 1 {
            Some(SectionKey(nums@[p + 1]))
        } else {
            None::<SectionKey>
        },
{
    let l = nums.len();
    if nums[p] == 1 {
        Some(SectionKey(nums[p + 1]))
    } else {
        None
    }
}

impl Record for User {
    open spec fn field_values(v: UserView) -> Fields {
        (
            seq![flag(v.notifications)] + agent_fields(v.user_agent).0,
            seq![v.email, v.forename, v.surname] + agent_fields(v.user_agent).1,
            Seq::empty(),
        )
    }

    open spec fn from_field_values(f: Fields) -> Option<UserView> {
        let (nums, ts, ls) = f;
        if nums.len() >= 1 && ts.len() >= 3 && ls.len() == 0 && nums[0] <= 1 {
            match agent_from(nums.skip(1), ts.skip(3)) {
                Some(a) => Some(
                    UserView {
                        email: ts[0],
                        forename: ts[1],
                        surname: ts[2],
                        notifications: nums[0] == 1,
                        user_agent: a,
                    },
                ),
                None => None,
            }
        } else {
            None
        }
    }

    open spec fn valid_view(v: UserView) -> bool {
        agent_valid(v.user_agent)
    }

    proof fn lemma_valid_view(&self) {
    }

    proof fn lemma_fields_round_trip(v: UserView) {
        lemma_agent_round_trip(v.user_agent);
        let (n, t, l) = Self::field_values(v);
        assert(n.skip(1) =~= agent_fields(v.user_agent).0);
        assert(t.skip(3) =~= agent_fields(v.user_agent).1);
    }

    fn to_fields(&self) -> (res: (Vec<u128>, Vec<String>, Vec<Vec<u128>>)) {
        let mut nums: Vec<u128> = Vec::new();
        let mut ts: Vec<String> = Vec::new();
        let ls: Vec<Vec<u128>> = Vec::new();
        nums.push(if self.notifications { 1 } else { 0 });
        ts.push(self.email.clone());
        ts.push(self.forename.clone());
        ts.push(self.surname.clone());
        assert(texts(ts@) =~= seq![self.email@, self.forename@, self.surname@]);
        push_agent_fields(&self.user_agent, &mut nums, &mut ts);
        assert(nums@ =~= Self::field_values(self@).0);
        assert(lists(ls@) =~= Self::field_values(self@).2);
        (nums, ts, ls)
    }

    fn from_fields(nums: &Vec<u128>, ts: &Vec<String>, ls: &Vec<Vec<u128>>) -> (res: Option<Self>) {
        if nums.len() >= 1 && ts.len() >= 3 && ls.len() == 0 && nums[0] <= 1 {
            assert(texts(ts@).skip(3) =~= texts(ts@.skip(3)));
            match agent_from_fields(nums, 1, ts, 3) {
                Some(a) => Some(
                    User {
                        email: ts[0].clone(),
                        forename: ts[1].clone(),
                        surname: ts[2].clone(),
                        notifications: nums[0] == 1,
                        user_agent: a,
                    },
                ),
                None => None,
            }
        } else {
            None
        }
    }
}

/// The users, by key.
pub type UserDb = Database<UserKey, User>;

} // verus!
