use vstd::prelude::*;
use vstd::string::StringSliceAdditionalSpecFns;
use vstd::utf8::encode_utf8;
use crate::codec::{Fields, Record, is_record_bytes, lists, read_value, record_bytes};
use crate::db::{Database, StoreError, StoreKey};
use crate::keys::UserKey;
use crate::section::texts;
use crate::user::flag;
use crate::util;

verus! {

/// The login of an account: its password, its user, and whether the
/// password is one the account was given rather than chose.
#[derive(Debug, Clone)]
pub struct LoginEntry {
    pub password: String,
    pub user_id: UserKey,
    pub default_password: bool,
}

impl LoginEntry {
    /// The password shown on the account's page: the generated one, while
    /// the account still has it.
    pub fn shown_password(&self) -> (res: Option<String>)
        ensures
            match res {
                Some(p) => self.default_password && p@ == self.password@,
                None => !self.default_password,
            },
    {
        if self.default_password {
            Some(self.password.clone())
        } else {
            None
        }
    }
}

/// The model of a [`LoginEntry`].
pub struct LoginEntryView {
    pub password: Seq<char>,
    pub user_id: UserKey,
    pub default_password: bool,
}

impl View for LoginEntry {
    type V = LoginEntryView;

    open spec fn view(&self) -> LoginEntryView {
        LoginEntryView { password: self.password@, user_id: self.user_id, default_password: self.default_password }
    }
}

impl Record for LoginEntry {
    open spec fn field_values(v: LoginEntryView) -> Fields {
        (seq![v.user_id.0, flag(v.default_password)], seq![v.password], Seq::empty())
    }

    open spec fn from_field_values(f: Fields) -> Option<LoginEntryView> {
        let (nums, ts, ls) = f;
        if nums.len() == 2 && ts.len() == 1 && ls.len() == 0 && nums[1] <= 1 {
            Some(LoginEntryView { password: ts[0], user_id: UserKey(nums[0]), default_password: nums[1] == 1 })
        } else {
            None
        }
    }

    open spec fn valid_view(v: LoginEntryView) -> bool {
        true
    }

    proof fn lemma_valid_view(&self) {
    }

    proof fn lemma_fields_round_trip(v: LoginEntryView) {
    }

    fn to_fields(&self) -> (res: (Vec<u128>, Vec<String>, Vec<Vec<u128>>)) {
        let mut nums: Vec<u128> = Vec::new();
        nums.push(self.user_id.0);
        nums.push(if self.default_password { 1 } else { 0 });
        let mut ts: Vec<String> = Vec::new();
        ts.push(self.password.clone());
        let ls: Vec<Vec<u128>> = Vec::new();
        assert(nums@ =~= Self::field_values(self@).0);
        assert(texts(ts@) =~= Self::field_values(self@).1);
        assert(lists(ls@) =~= Self::field_values(self@).2);
        (nums, ts, ls)
    }

    fn from_fields(nums: &Vec<u128>, ts: &Vec<String>, ls: &Vec<Vec<u128>>) -> (res: Option<Self>) {
        if nums.len() == 2 && ts.len() == 1 && ls.len() == 0 && nums[1] <= 1 {
            Some(LoginEntry { password: ts[0].clone(), user_id: UserKey(nums[0]), default_password: nums[1] == 1 })
        } else {
            None
        }
    }
}

/// The bytes a login entry is stored as.
pub open spec fn login_bytes(e: LoginEntryView) -> Seq<u8> {
    record_bytes::<LoginEntry>(e)
}

/// Why a login failed.
#[derive(Debug)]
pub enum AuthError {
    NoUser,
    IncorrectPassword,
    DbError(StoreError),
}

impl AuthError {
    /// The message shown for the error; a database error is described by
    /// the store.
    pub fn message(&self) -> (res: Option<String>)
        ensures
            match self {
                AuthError::NoUser => res is Some && res->Some_0@ == "No matching username found!"@,
                AuthError::IncorrectPassword => res is Some && res->Some_0@ == "Incorrect password for username!"@,
                AuthError::DbError(_) => res is None,
            },
    {
        match self {
            AuthError::NoUser => Some("No matching username found!".to_owned()),
            AuthError::IncorrectPassword => Some("Incorrect password for username!".to_owned()),
            AuthError::DbError(_) => None,
        }
    }
}

/// Why a login could not be added.
#[derive(Debug)]
pub enum LoginEntryError {
    NotUnique,
    UsernameExists,
    DbError(StoreError),
}

impl LoginEntryError {
    /// The message shown for the error; a database error is described by
    /// the store.
    pub fn message(&self) -> (res: Option<String>)
        ensures
            match self {
                LoginEntryError::UsernameExists => res is Some && res->Some_0@
                    == "An account with the given username already exists!"@,
                LoginEntryError::NotUnique => res is Some && res->Some_0@
                    == "An account with similar characteristics exists where it should not!"@,
                LoginEntryError::DbError(_) => res is None,
            },
    {
        match self {
            LoginEntryError::UsernameExists => Some("An account with the given username already exists!".to_owned()),
            LoginEntryError::NotUnique => Some(
                "An account with similar characteristics exists where it should not!".to_owned(),
            ),
            LoginEntryError::DbError(_) => None,
        }
    }
}

/// What `authenticate` answers for the bytes `stored` under a user name (if
/// any) and the password `password`: the user of the entry read from the
/// bytes when its password is `password`, `IncorrectPassword` when it holds
/// another, `NoUser` when nothing is stored, and a deserialisation error
/// only when the bytes cannot be read.
pub open spec fn authenticated(stored: Option<Seq<u8>>, password: Seq<char>, res: Result<UserKey, AuthError>) -> bool {
    match res {
        Ok(u) => stored is Some && read_value::<LoginEntry>(stored->Some_0) is Some && read_value::<LoginEntry>(
            stored->Some_0,
        )->Some_0.password == password && read_value::<LoginEntry>(stored->Some_0)->Some_0.user_id == u && forall|
            e: LoginEntryView,
        | #[trigger] login_bytes(e) == stored->Some_0 ==> e.password == password && e.user_id == u,
        Err(AuthError::IncorrectPassword) => stored is Some && read_value::<LoginEntry>(stored->Some_0) is Some
            && read_value::<LoginEntry>(stored->Some_0)->Some_0.password != password && forall|e: LoginEntryView|
            #[trigger] login_bytes(e) == stored->Some_0 ==> e.password != password,
        Err(AuthError::NoUser) => stored is None,
        Err(AuthError::DbError(StoreError::DbError(_))) => true,
        Err(AuthError::DbError(StoreError::SerializeError(_))) => false,
        Err(AuthError::DbError(_)) => stored is Some && read_value::<LoginEntry>(stored->Some_0) is None
            && !is_record_bytes::<LoginEntry>(stored->Some_0),
    }
}

/// Whether `e` is the only entry whose bytes are `b`: what reading `b`
/// gives, when `b` are some entry's bytes.
pub open spec fn read_as(b: Seq<u8>, e: LoginEntryView) -> bool {
    forall|r: LoginEntryView| #[trigger] login_bytes(r) == b ==> r == e
}

/// The logins, by user name.
pub struct LoginDb(Database<str, LoginEntry>);

impl LoginDb {
    /// The stored logins, by the bytes of their user names.
    pub closed spec fn logins(&self) -> Map<Seq<u8>, Seq<u8>> {
        self.0.contents()
    }

    /// How many operations on the logins have failed so far.
    pub closed spec fn failures(&self) -> nat {
        self.0.failures()
    }

    /// The bytes stored under a user name, if any.
    pub open spec fn stored_text(&self, username: Seq<char>) -> Option<Seq<u8>> {
        if self.logins().contains_key(encode_utf8(username)) {
            Some(self.logins()[encode_utf8(username)])
        } else {
            None
        }
    }

    /// The bytes stored under a user name, if any.
    pub open spec fn stored(&self, username: &str) -> Option<Seq<u8>> {
        self.stored_text(username@)
    }

    /// Opens the logins stored at the path.
    pub fn open(path: &str) -> (res: Result<Self, sled::Error>) {
        match Database::open(path) {
            Ok(db) => Ok(LoginDb(db)),
            Err(e) => Err(e),
        }
    }

    /// The database of logins.
    pub fn db(&self) -> (res: &Database<str, LoginEntry>)
        ensures
            res.contents() == self.logins(),
    {
        &self.0
    }

    /// Removes the login `username`.
    pub fn remove_login(&mut self, username: &str) -> (res: Result<(), sled::Error>)
        ensures
            res is Ok ==> final(self).logins() == old(self).logins().remove(username.spec_bytes()),
            final(self).failures() == old(self).failures() + if res is Ok {
                0nat
            } else {
                1nat
            },
    {
        self.0.remove_silent(username)
    }

    /// The user whose login is `username` with password `password`.
    pub fn authenticate(&self, username: &str, password: &str) -> (res: Result<UserKey, AuthError>)
        ensures
            authenticated(self.stored(username), password@, res),
    {
        match self.0.fetch(username) {
            Ok(Some(entry)) => {
                if util::same_text(entry.password.as_str(), password) {
                    Ok(entry.user_id)
                } else {
                    Err(AuthError::IncorrectPassword)
                }
            },
            Ok(None) => Err(AuthError::NoUser),
            Err(e) => Err(AuthError::DbError(e)),
        }
    }

    /// Adds a login under a user name not yet taken.
    pub fn add_entry(&mut self, username: &str, entry: &LoginEntry) -> (res: Result<(), LoginEntryError>)
        ensures
            res is Ok ==> !old(self).logins().contains_key(username.spec_bytes()) && final(self).logins()
                == old(self).logins().insert(username.spec_bytes(), login_bytes(entry@)),
            res matches Err(LoginEntryError::UsernameExists) ==> old(self).logins().contains_key(
                username.spec_bytes(),
            ) && final(self).logins() == old(self).logins(),
            !(res matches Err(LoginEntryError::NotUnique)),
            res matches Err(LoginEntryError::DbError(e)) ==> e is DbError,
    {
        match self.0.contains_key(username) {
            Ok(contains_key) => {
                if contains_key {
                    Err(LoginEntryError::UsernameExists)
                } else {
                    match self.0.insert(username, entry) {
                        Ok(_) => Ok(()),
                        Err(e) => Err(LoginEntryError::DbError(e)),
                    }
                }
            },
            Err(e) => Err(LoginEntryError::DbError(StoreError::DbError(e))),
        }
    }

    /// Sets the password of the login `username`, and whether it is one the
    /// account was given.
    pub fn change_password(&mut self, username: &str, password: &str, default_password: bool) -> (res: Result<(), AuthError>)
        ensures
            res is Ok ==> old(self).stored(username) is Some && exists|e: LoginEntryView|
                #[trigger] read_as(old(self).stored(username)->Some_0, e) && final(self).logins()
                    == old(self).logins().insert(
                    username.spec_bytes(),
                    login_bytes(LoginEntryView { password: password@, default_password, ..e }),
                ),
            res matches Err(AuthError::NoUser) ==> old(self).stored(username) is None && final(self).logins()
                == old(self).logins(),
            !(res matches Err(AuthError::IncorrectPassword)),
            forall|e: LoginEntryView|
                old(self).stored(username) == Some(#[trigger] login_bytes(e)) ==> (res is Err ==> res->Err_0 is DbError),
            res matches Err(AuthError::DbError(e)) ==> e is DbError || (old(self).stored(username) matches Some(b)
                && read_value::<LoginEntry>(b) is None),
    {
        let ghost old_stored = self.stored(username);
        match self.0.fetch(username) {
            Ok(Some(entry)) => {
                let ghost e0 = entry@;
                assert(read_as(old_stored->Some_0, e0));
                let new_entry = LoginEntry {
                    password: password.to_owned(),
                    user_id: entry.user_id,
                    default_password,
                };
                match self.0.insert(username, &new_entry) {
                    Ok(_) => {
                        assert(new_entry@ == LoginEntryView { password: password@, default_password, ..e0 });
                        Ok(())
                    },
                    Err(e) => Err(AuthError::DbError(e)),
                }
            },
            Ok(None) => Err(AuthError::NoUser),
            Err(e) => Err(AuthError::DbError(e)),
        }
    }
}

/// A login added under a free user name is then accepted with its password
/// for its user, and refused with any other password.
pub proof fn law_added_login_authenticates(
    before: LoginDb,
    after: LoginDb,
    username: &str,
    entry: LoginEntryView,
    password: Seq<char>,
    res: Result<UserKey, AuthError>,
)
    requires
        after.logins() == before.logins().insert(username.spec_bytes(), login_bytes(entry)),
        authenticated(after.stored(username), password, res),
        !(res matches Err(AuthError::DbError(StoreError::DbError(_)))),
    ensures
        password == entry.password ==> res == Ok::<UserKey, AuthError>(entry.user_id),
        password != entry.password ==> res matches Err(AuthError::IncorrectPassword),
{
    assert(after.stored(username) == Some(login_bytes(entry)));
    assert(is_record_bytes::<LoginEntry>(login_bytes(entry))) by {
        assert(LoginEntry::valid_view(entry));
    }
}

} // verus!
