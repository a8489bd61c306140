use vstd::prelude::*;
use crate::accounts::AccountListing;
use crate::keys::{OrgKey, UserKey};
use crate::section::AwardInfo;
use crate::user::{AgentView, User, UserAgent, UserView};
use crate::util::{self, email_valid, is_blank, string_server_valid};

verus! {

/// The query of the accounts page: a search, or a request to see every
/// account.
#[derive(Debug, Clone)]
pub struct AccountsQuery {
    pub search: Option<String>,
    pub view_all: Option<bool>,
}

impl AccountsQuery {
    /// Which accounts to list: all when asked, else those answering a search
    /// that is not blank, else none.
    pub fn listing(&self) -> (res: AccountListing)
        ensures
            res == if self.view_all == Some(true) {
                AccountListing::All
            } else {
                match self.search {
                    Some(s) => if !is_blank(s@) {
                        AccountListing::Search(s)
                    } else {
                        AccountListing::Nothing
                    },
                    None => AccountListing::Nothing,
                }
            },
    {
        let view_all = match self.view_all {
            Some(v) => v,
            None => false,
        };
        if view_all {
            AccountListing::All
        } else {
            match &self.search {
                Some(search) => if !util::is_blank_text(search.as_str()) {
                    AccountListing::Search(search.clone())
                } else {
                    AccountListing::Nothing
                },
                None => AccountListing::Nothing,
            }
        }
    }

    /// Whether the table of accounts is shown: after a search, or when all
    /// are asked for.
    pub fn display_user_table(&self) -> (res: bool)
        ensures
            res == (self.search is Some || self.view_all == Some(true)),
    {
        self.search.is_some() || match self.view_all {
            Some(v) => v,
            None => false,
        }
    }

    /// Whether the page offers to list every account: unless all are listed
    /// without a search.
    pub fn not_viewing_all(&self) -> (res: bool)
        ensures
            res == (self.view_all != Some(true) || self.search is Some),
    {
        let view_all = match self.view_all {
            Some(v) => v,
            None => false,
        };
        !view_all || self.search.is_some()
    }
}

/// The first problem with the name and email of a new account, if any,
/// worded for the kind of account (`who` goes before the field's name).
pub open spec fn person_problem(who: Seq<char>, forename: Seq<char>, surname: Seq<char>, email: Seq<char>) -> Option<Seq<char>> {
    if !string_server_valid(forename) {
        Some("Invalid "@ + who + "forename provided"@)
    } else if !string_server_valid(surname) {
        Some("Invalid "@ + who + "surname provided"@)
    } else if !email_valid(email) {
        Some("Invalid "@ + who + "email provided"@)
    } else {
        None
    }
}

/// The first problem with a name and email, worded for `who`.
fn person_check(who: &str, forename: &str, surname: &str, email: &str) -> (res: Option<String>)
    ensures
        match person_problem(who@, forename@, surname@, email@) {
            Some(m) => res is Some && res->Some_0@ == m,
            None => res is None,
        },
{
    if !util::is_string_server_valid(forename) {
        Some("Invalid ".to_owned().concat(who).concat("forename provided"))
    } else if !util::is_string_server_valid(surname) {
        Some("Invalid ".to_owned().concat(who).concat("surname provided"))
    } else if !util::is_email_valid(email) {
        Some("Invalid ".to_owned().concat(who).concat("email provided"))
    } else {
        None
    }
}

/// The user a form describes: its email and names, notifications on, and
/// the given kind.
pub open spec fn new_user(email: Seq<char>, forename: Seq<char>, surname: Seq<char>, agent: AgentView) -> UserView {
    UserView { email, forename, surname, notifications: true, user_agent: agent }
}

/// The form that adds a global administrator.
#[derive(Debug, Clone)]
pub struct AddAdminForm {
    pub forename: String,
    pub surname: String,
    pub email: String,
}

impl AddAdminForm {
    /// The first problem with the form, if any.
    pub fn problem(&self) -> (res: Option<String>)
        ensures
            match person_problem(""@, self.forename@, self.surname@, self.email@) {
                Some(m) => res is Some && res->Some_0@ == m,
                None => res is None,
            },
    {
        person_check("", self.forename.as_str(), self.surname.as_str(), self.email.as_str())
    }

    /// The administrator the form describes.
    pub fn to_user(&self) -> (res: User)
        ensures
            res@ == new_user(self.email@, self.forename@, self.surname@, AgentView::Admin),
    {
        User {
            email: self.email.clone(),
            forename: self.forename.clone(),
            surname: self.surname.clone(),
            notifications: true,
            user_agent: UserAgent::Admin,
        }
    }
}

/// The form that adds a teacher to an organisation.
#[derive(Debug, Clone)]
pub struct AddAssociateForm {
    pub forename: String,
    pub surname: String,
    pub email: String,
}

impl AddAssociateForm {
    /// The first problem with the form, if any.
    pub fn problem(&self) -> (res: Option<String>)
        ensures
            match person_problem("teacher "@, self.forename@, self.surname@, self.email@) {
                Some(m) => res is Some && res->Some_0@ == m,
                None => res is None,
            },
    {
        person_check("teacher ", self.forename.as_str(), self.surname.as_str(), self.email.as_str())
    }

    /// The teacher of the organisation the form describes.
    pub fn to_user(&self, org_id: OrgKey) -> (res: User)
        ensures
            res@ == new_user(self.email@, self.forename@, self.surname@, AgentView::Associate(org_id)),
    {
        User {
            email: self.email.clone(),
            forename: self.forename.clone(),
            surname: self.surname.clone(),
            notifications: true,
            user_agent: UserAgent::Associate(org_id),
        }
    }
}

/// The form that adds a pupil to an organisation.
#[derive(Debug, Clone)]
pub struct AddClientForm {
    pub forename: String,
    pub surname: String,
    pub email: String,
    pub class: String,
    pub award_index: usize,
}

impl AddClientForm {
    /// Whether the names, email and class are accepted text.
    pub fn is_valid(&self) -> (res: bool)
        ensures
            res == (string_server_valid(self.forename@) && string_server_valid(self.surname@)
                && string_server_valid(self.email@) && string_server_valid(self.class@)),
    {
        util::is_string_server_valid(self.forename.as_str()) && util::is_string_server_valid(self.surname.as_str())
            && util::is_string_server_valid(self.email.as_str()) && util::is_string_server_valid(
            self.class.as_str(),
        )
    }

    /// The pupil of the organisation the form describes, working towards
    /// the award at the form's index among `awards`, with no section chosen
    /// yet; nothing when there is no award at that index.
    pub fn to_user(&self, org_id: OrgKey, awards: &Vec<(String, AwardInfo)>) -> (res: Option<User>)
        ensures
            self.award_index < awards@.len() ==> res is Some && res->Some_0@ == new_user(
                self.email@,
                self.forename@,
                self.surname@,
                AgentView::Client {
                    org_id,
                    class: self.class@,
                    award: awards@[self.award_index as int].0@,
                    sections: seq![None, None, None, None, None, None],
                },
            ),
            self.award_index >= awards@.len() ==> res is None,
    {
        if self.award_index < awards.len() {
            let user = User {
                email: self.email.clone(),
                forename: self.forename.clone(),
                surname: self.surname.clone(),
                notifications: true,
                user_agent: UserAgent::Client {
                    org_id,
                    class: self.class.clone(),
                    award: awards[self.award_index].0.clone(),
                    sections: [None, None, None, None, None, None],
                },
            };
            proof {
                if let UserAgent::Client { sections, .. } = user.user_agent {
                    assert(sections@ =~= seq![None, None, None, None, None, None]);
                }
            }
            Some(user)
        } else {
            None
        }
    }
}

/// The form that deletes data in bulk, confirmed by the password of the
/// one asking.
#[derive(Debug, Clone)]
pub struct DeleteDataForm {
    pub delete_pupils: Option<String>,
    pub delete_credits: Option<String>,
    pub delete_orgs: Option<String>,
    pub password: String,
}

/// What the deletion page reports: nothing done when nothing was asked for;
/// the organisations when they were asked for; else the credits and the
/// pupils as asked, separated by a comma.
pub open spec fn deletion_info_text(orgs: bool, credits: bool, pupils: bool) -> Seq<char> {
    if !orgs && !credits && !pupils {
        "You did not select any data to delete!"@
    } else if orgs {
        "You have deleted the following data: "@ + "<b>organisations</b>"@
    } else {
        "You have deleted the following data: "@ + (if credits {
            "<b>credits</b>"@
        } else {
            Seq::empty()
        }) + (if pupils {
            if credits {
                ", <b>pupils</b>"@
            } else {
                "<b>pupils</b>"@
            }
        } else {
            Seq::empty()
        })
    }
}

impl DeleteDataForm {
    /// Whether nothing is to be deleted: neither organisations, credits nor
    /// pupils were asked for.
    pub fn nothing_selected(&self) -> (res: bool)
        ensures
            res == (self.delete_orgs is None && self.delete_credits is None && self.delete_pupils is None),
    {
        self.delete_orgs.is_none() && self.delete_credits.is_none() && self.delete_pupils.is_none()
    }

    /// The report of what the form deletes.
    pub fn deletion_info(&self) -> (res: String)
        ensures
            res@ == deletion_info_text(
                self.delete_orgs is Some,
                self.delete_credits is Some,
                self.delete_pupils is Some,
            ),
    {
        if self.nothing_selected() {
            "You did not select any data to delete!".to_owned()
        } else {
            let mut info = "You have deleted the following data: ".to_owned();
            let ghost start = info@;
            if self.delete_orgs.is_some() {
                info = info.concat("<b>organisations</b>");
            } else {
                if self.delete_credits.is_some() {
                    info = info.concat("<b>credits</b>");
                } else {
                    assert(info@ =~= start + Seq::<char>::empty());
                }
                let ghost mid = info@;
                if self.delete_pupils.is_some() {
                    if self.delete_credits.is_some() {
                        info = info.concat(", <b>pupils</b>");
                    } else {
                        info = info.concat("<b>pupils</b>");
                    }
                } else {
                    assert(info@ =~= mid + Seq::<char>::empty());
                }
            }
            info
        }
    }
}

/// The login form.
#[derive(Debug, Clone)]
pub struct LoginForm {
    pub username: String,
    pub password: String,
}

impl LoginForm {
    /// Whether both a user name and a password were given.
    pub fn is_filled(&self) -> (res: bool)
        ensures
            res == (self.username@.len() > 0 && self.password@.len() > 0),
    {
        self.username.as_str().unicode_len() > 0 && self.password.as_str().unicode_len() > 0
    }
}

/// The problem with a new password and its confirmation, if any: they must
/// match, and the password must not be blank. Passwords are never shown, so
/// they need not keep to the characters other inputs are held to.
pub open spec fn password_problem(password: Seq<char>, confirm: Seq<char>) -> Option<Seq<char>> {
    if password != confirm {
        Some("Passwords do not match!"@)
    } else if is_blank(password) {
        Some("Invalid password string!"@)
    } else {
        None
    }
}

/// The first problem with a new password and its confirmation.
fn password_check(password: &str, confirm: &str) -> (res: Option<String>)
    ensures
        match password_problem(password@, confirm@) {
            Some(m) => res is Some && res->Some_0@ == m,
            None => res is None,
        },
{
    if !util::same_text(password, confirm) {
        Some("Passwords do not match!".to_owned())
    } else if util::is_blank_text(password) {
        Some("Invalid password string!".to_owned())
    } else {
        None
    }
}

/// The form that sets a new password through a link.
#[derive(Debug, Clone)]
pub struct ChangePasswordForm {
    pub password: String,
    pub confirm: String,
}

impl ChangePasswordForm {
    /// The first problem with the form, if any.
    pub fn problem(&self) -> (res: Option<String>)
        ensures
            match password_problem(self.password@, self.confirm@) {
                Some(m) => res is Some && res->Some_0@ == m,
                None => res is None,
            },
    {
        password_check(self.password.as_str(), self.confirm.as_str())
    }
}

/// The form that creates an account through a link.
#[derive(Debug, Clone)]
pub struct CreateAccountForm {
    pub forename: String,
    pub surname: String,
    pub email: String,
    pub password: String,
    pub confirm: String,
}

impl CreateAccountForm {
    /// The first problem with the form, if any: the password first, then
    /// the names and email, which must be accepted text.
    pub fn problem(&self) -> (res: Option<String>)
        ensures
            match password_problem(self.password@, self.confirm@) {
                Some(m) => res is Some && res->Some_0@ == m,
                None => if !string_server_valid(self.forename@) || !string_server_valid(self.surname@)
                    || !string_server_valid(self.email@) {
                    res is Some && res->Some_0@ == "Invalid user details!"@
                } else {
                    res is None
                },
            },
    {
        match password_check(self.password.as_str(), self.confirm.as_str()) {
            Some(m) => Some(m),
            None => {
                if !util::is_string_server_valid(self.forename.as_str()) || !util::is_string_server_valid(
                    self.surname.as_str(),
                ) || !util::is_string_server_valid(self.email.as_str()) {
                    Some("Invalid user details!".to_owned())
                } else {
                    None
                }
            },
        }
    }

    /// The user of the given kind the form describes.
    pub fn to_user(&self, agent: UserAgent) -> (res: User)
        ensures
            res@ == new_user(self.email@, self.forename@, self.surname@, agent@),
    {
        User {
            forename: self.forename.clone(),
            surname: self.surname.clone(),
            email: self.email.clone(),
            notifications: true,
            user_agent: agent,
        }
    }
}

/// The form that asks for a password reset.
#[derive(Debug, Clone)]
pub struct ResetPasswordForm {
    pub username: String,
}

/// The form that adds an organisation.
#[derive(Debug, Clone)]
pub struct AddOrgForm {
    pub name: String,
}

impl AddOrgForm {
    /// Whether the name is accepted text.
    pub fn is_valid(&self) -> (res: bool)
        ensures
            res == string_server_valid(self.name@),
    {
        util::is_string_server_valid(self.name.as_str())
    }
}

/// The form that deletes an organisation.
#[derive(Debug, Clone, Copy)]
pub struct DeleteOrgForm {
    pub org_id: OrgKey,
}

/// The form that invites the administrator of an organisation.
#[derive(Debug, Clone)]
pub struct AssignAdminForm {
    pub email: String,
    pub org_id: OrgKey,
}

/// The form that adds credits to an organisation.
#[derive(Debug, Clone, Copy)]
pub struct AddCreditsForm {
    pub credits_count: u32,
    pub org_id: OrgKey,
}

/// The form that picks the activity of a section.
#[derive(Debug, Clone, Copy)]
pub struct SelectSectionOptionForm {
    pub index: usize,
}

/// The form that deletes a user.
#[derive(Debug, Clone, Copy)]
pub struct DeleteUserForm {
    pub user_id: UserKey,
}

} // verus!
