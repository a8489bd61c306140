use vstd::prelude::*;
use crate::keys::{OrgKey, UserKey, lemma_uuid_text_injective, uuid_text};

verus! {

// Misc
pub const AUTH_COOKIE: &'static str = "Auth";
pub const LOGIN_REDIRECT_COOKIE: &'static str = "LoginRedirect";
pub const APP_NAME: &'static str = "Senior Duke Portal";
pub const EXTENDED_APP_NAME: &'static str = "Senior Duke Portal";

pub const USER_ROOT_PATH: &'static str = "/user";

pub const LINK_BASE_PATH: &'static str = "/link";
pub const CHANGE_PASSWORD_PATH: &'static str = "/user/change_password";

// Login
pub const LOGIN_PAGE: &'static str = "/login";
pub const LOGIN_POST_PATH: &'static str = "/login";
pub const LOGIN_TITLE: &'static str = "Login";
pub const LOGOUT_PATH: &'static str = "/logout";

// Top level
pub const ORGS_PAGE: &'static str = "/orgs";
pub const ORGS_TITLE: &'static str = "Organisations";

pub const OA_PAGE: &'static str = "/achievements";
pub const OA_TITLE: &'static str = "Outstanding Achievements";

pub const DELETE_USER_PATH: &'static str = "/delete_user";

// Administration
pub const ADMIN_PATH: &'static str = "/admin";
pub const ACCOUNTS_PATH: &'static str = "/admin/accounts";
pub const ADD_ADMIN_PATH: &'static str = "/admin/add_admin";
pub const DELETE_PATH: &'static str = "/admin/delete";
pub const DOWNLOAD_LOG_PATH: &'static str = "/admin/log";
pub const LOG_PATH: &'static str = "log.txt";

// Organisation
pub const ORG_ROOT_PATH: &'static str = "/org";

pub const ADD_ORG_PATH: &'static str = "/add_org";
pub const DELETE_ORG_PATH: &'static str = "/del_org";
pub const ADD_CREDITS_PATH: &'static str = "/add_credits";
pub const ASSIGN_ADMIN_PATH: &'static str = "/assign_admin";

pub const CLIENTS_PAGE: &'static str = "/clients";
pub const CLIENTS_TITLE: &'static str = "Pupils";
pub const ADD_CLIENT_PATH: &'static str = "/add_client";

pub const ASSOCIATES_PAGE: &'static str = "/associates";
pub const ASSOCIATES_TITLE: &'static str = "Teachers";

pub const UNREVIEWED_SECTIONS_PAGE: &'static str = "/unreviewed";

pub const ADD_ASSOCIATE_PATH: &'static str = "/add_associate";

// Client
pub const CLIENT_ROOT_PATH: &'static str = "/client";
pub const SECTION_ROOT: &'static str = "/section";
pub const SELECT_ACTIVITY_PATH: &'static str = "/select_activity";

pub const SECTIONS_TITLE: &'static str = "Sections";

// Timing
pub const NOTIFICATION_INTERVAL_DAYS: u64 = 7;
pub const CHANE_PASSWORD_LINK_TIMEOUT_SECS: u64 = 86400;
pub const ASSIGN_ADMIN_LINK_TIMEOUT_SECS: u64 = 604800;
/// How long a session lasts from its last use.
pub const SESSION_TIMEOUT_SECS: u64 = 900;

/// The page of a user: `/user/<id>`.
pub open spec fn user_path_text(user_id: UserKey) -> Seq<char> {
    USER_ROOT_PATH@ + "/"@ + uuid_text(user_id.0)
}

/// The page of an organisation: `/org/<id>`.
pub open spec fn org_path_text(org_id: OrgKey) -> Seq<char> {
    ORG_ROOT_PATH@ + "/"@ + uuid_text(org_id.0)
}

/// The dashboard of a pupil: `/org/<org id>/client/<user id>`.
pub open spec fn client_path_text(org_id: OrgKey, user_id: UserKey) -> Seq<char> {
    org_path_text(org_id) + CLIENT_ROOT_PATH@ + "/"@ + uuid_text(user_id.0)
}

/// A pupil's dashboard lies under its organisation's page, and its path
/// tells the organisation and the pupil apart: two dashboards have the same
/// path only for the same organisation and the same pupil.
pub proof fn law_client_path_injective(o1: OrgKey, u1: UserKey, o2: OrgKey, u2: UserKey)
    ensures
        client_path_text(o1, u1).subrange(0, org_path_text(o1).len() as int) == org_path_text(o1),
        client_path_text(o1, u1) == client_path_text(o2, u2) ==> o1 == o2 && u1 == u2,
{
    reveal_strlit("/org");
    reveal_strlit("/");
    reveal_strlit("/client");
    lemma_uuid_text_injective(o1.0, o1.0);
    lemma_uuid_text_injective(o2.0, o2.0);
    lemma_uuid_text_injective(u1.0, u1.0);
    lemma_uuid_text_injective(u2.0, u2.0);
    let p1 = client_path_text(o1, u1);
    let p2 = client_path_text(o2, u2);
    assert(p1.subrange(0, org_path_text(o1).len() as int) =~= org_path_text(o1));
    assert(p1.subrange(5, 41) =~= uuid_text(o1.0));
    assert(p2.subrange(5, 41) =~= uuid_text(o2.0));
    assert(p1.subrange(49, 85) =~= uuid_text(u1.0));
    assert(p2.subrange(49, 85) =~= uuid_text(u2.0));
    if p1 == p2 {
        lemma_uuid_text_injective(o1.0, o2.0);
        lemma_uuid_text_injective(u1.0, u2.0);
    }
}

/// The path of a user's page.
pub fn user_path(user_id: UserKey) -> (res: String)
    ensures
        res@ == user_path_text(user_id),
{
    let id = user_id.to_string();
    USER_ROOT_PATH.to_owned().concat("/").concat(id.as_str())
}

/// The path of an organisation's page.
pub fn org_path(org_id: OrgKey) -> (res: String)
    ensures
        res@ == org_path_text(org_id),
{
    let id = org_id.to_string();
    ORG_ROOT_PATH.to_owned().concat("/").concat(id.as_str())
}

/// The path of a pupil's dashboard within its organisation.
pub fn client_path(org_id: OrgKey, user_id: UserKey) -> (res: String)
    ensures
        res@ == client_path_text(org_id, user_id),
{
    let id = user_id.to_string();
    org_path(org_id).concat(CLIENT_ROOT_PATH).concat("/").concat(id.as_str())
}

} // verus!
