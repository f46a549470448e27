//! The user service: credential checking and registration against the
//! relational store's user table, held here as a value, with passwords
//! checked through the credential verifier.

use vstd::prelude::*;
use crate::fold::lower_of;
use crate::ids::Uuid;
use crate::passwords::{argon2_verifies, verify, hash};

verus! {

/// What can go wrong checking or registering a user.
#[derive(Clone, Copy, PartialEq, Eq, Structural, Debug)]
pub enum UserServiceError {
    /// No live user carries the email.
    UserNotFound,
    /// The user authenticates some other way than by password.
    UserDoesNotUsePassword,
    /// A user already carries the email.
    UserAlreadyExists,
    /// The password does not verify against the stored hash.
    WrongPassword,
    /// A failure below the service, such as the hashing primitive's.
    UnknownError,
}

/// The mathematical content of a user row.
pub ghost struct UserModel {
    pub id: u128,
    pub name: Seq<char>,
    pub email: Seq<char>,
    pub password: Option<Seq<char>>,
    pub created_at: int,
    pub updated_at: int,
    pub deleted_at: Option<int>,
}

/// A user row: identity, credentials and lifecycle timestamps.
#[derive(Debug)]
pub struct User {
    pub id: Uuid,
    pub name: String,
    pub email: String,
    /// The stored password hash; absent for users that authenticate some
    /// other way.
    pub password: Option<String>,
    pub created_at: i64,
    pub updated_at: i64,
    pub deleted_at: Option<i64>,
}

impl View for User {
    type V = UserModel;

    open spec fn view(&self) -> UserModel {
        UserModel {
            id: self.id.value,
            name: self.name@,
            email: self.email@,
            password: match self.password {
                Some(ref p) => Some(p@),
                None => None,
            },
            created_at: self.created_at as int,
            updated_at: self.updated_at as int,
            deleted_at: match self.deleted_at {
                Some(d) => Some(d as int),
                None => None,
            },
        }
    }
}

impl Clone for User {
    fn clone(&self) -> (r: Self)
        ensures
            r == *self,
    {
        User {
            id: self.id,
            name: self.name.clone(),
            email: self.email.clone(),
            password: match &self.password {
                Some(p) => Some(p.clone()),
                None => None,
            },
            created_at: self.created_at,
            updated_at: self.updated_at,
            deleted_at: self.deleted_at,
        }
    }
}

/// The store's answer for an email: the first live (not deleted) row whose
/// lower-cased email equals the given string.
pub open spec fn spec_find_user_by_email(users: Seq<UserModel>, email: Seq<char>) -> Option<
    UserModel,
>
    decreases users.len(),
{
    if users.len() == 0 {
        None
    } else if users[0].deleted_at is None && lower_of(users[0].email) == email {
        Some(users[0])
    } else {
        spec_find_user_by_email(users.drop_first(), email)
    }
}

/// Whether any row, live or deleted, already carries the email exactly: the
/// store's uniqueness constraint.
pub open spec fn spec_email_taken(users: Seq<UserModel>, email: Seq<char>) -> bool {
    exists|i: int| 0 <= i < users.len() && #[trigger] users[i].email == email
}

/// What a credential check returns over given rows: the user when the email
/// is found live, its hash present, and the password verifying; otherwise
/// the error naming the first check that failed.
pub open spec fn spec_credentials(
    users: Seq<UserModel>,
    email: Seq<char>,
    password: Seq<char>,
) -> Result<UserModel, UserServiceError> {
    match spec_find_user_by_email(users, email) {
        None => Err(UserServiceError::UserNotFound),
        Some(u) => match u.password {
            None => Err(UserServiceError::UserDoesNotUsePassword),
            Some(h) => if argon2_verifies(password, h) {
                Ok(u)
            } else {
                Err(UserServiceError::WrongPassword)
            },
        },
    }
}

/// The user service, over the user table held as a value.
pub struct UserService {
    users: Vec<User>,
}

impl View for UserService {
    type V = Seq<UserModel>;

    closed spec fn view(&self) -> Seq<UserModel> {
        Seq::new(self.users@.len(), |i: int| self.users@[i]@)
    }
}

impl UserService {
    pub fn new() -> (r: Self)
        ensures
            r@ =~= Seq::<UserModel>::empty(),
    {
        UserService { users: Vec::new() }
    }

    /// Checks a user's credentials and returns the user if every check
    /// passes: the email names a live user (`UserNotFound` otherwise), the
    /// user has a password hash (`UserDoesNotUsePassword` otherwise), and
    /// the password verifies against it (`WrongPassword` otherwise).
    pub fn check_user_credentials(&self, email: &str, password: &str) -> (r: Result<
        User,
        UserServiceError,
    >)
        ensures
            match r {
                Ok(u) => spec_credentials(self@, email@, password@) == Ok::<
                    UserModel,
                    UserServiceError,
                >(u@),
                Err(e) => spec_credentials(self@, email@, password@) == Err::<
                    UserModel,
                    UserServiceError,
                >(e),
            },
    {
        let n = self.users.len();
        let mut i: usize = 0;
        proof {
            assert(self@.skip(0) =~= self@);
        }
        while i < n
            invariant
                i <= n,
                n == self.users@.len(),
                n == self@.len(),
                spec_find_user_by_email(self@, email@) == spec_find_user_by_email(
                    self@.skip(i as int),
                    email@,
                ),
            decreases n - i,
        {
            proof {
                assert(self@.skip(i as int)[0] == self@[i as int]);
                assert(self@.skip(i as int).drop_first() =~= self@.skip(i + 1 as int));
            }
            let candidate = &self.users[i];
            let is_live = candidate.deleted_at.is_none();
            let lowered = crate::fold::to_ascii_lower(candidate.email.as_str());
            let mut email_string = String::new();
            email_string.append(email);
            if is_live && lowered == email_string {
                let user = candidate.clone();
                match &user.password {
                    None => {
                        return Err(UserServiceError::UserDoesNotUsePassword);
                    },
                    Some(h) => {
                        if verify(password, h.as_str()) {
                            return Ok(user);
                        } else {
                            return Err(UserServiceError::WrongPassword);
                        }
                    },
                }
            }
            i = i + 1;
        }
        proof {
            assert(self@.skip(n as int).len() == 0);
        }
        Err(UserServiceError::UserNotFound)
    }

    /// Registers a user: hashes the password, if one is given, and appends a
    /// fresh row unless some row already carries the email exactly
    /// (`UserAlreadyExists`; the table is left unchanged). A hashing failure
    /// surfaces as `UnknownError`. The fresh row's identifier is the new row
    /// count; its timestamps are the given instant.
    pub fn register_user(
        &mut self,
        name: &str,
        email: &str,
        password: Option<&str>,
        now: i64,
    ) -> (r: Result<User, UserServiceError>)
        ensures
            match r {
                Ok(u) => {
                    &&& !spec_email_taken(old(self)@, email@)
                    &&& u@.name == name@
                    &&& u@.email == email@
                    &&& u@.id == old(self)@.len() + 1
                    &&& u@.created_at == now as int
                    &&& u@.updated_at == now as int
                    &&& u@.deleted_at is None
                    &&& (match password {
                        None => u@.password is None,
                        Some(p) => u@.password matches Some(h) && argon2_verifies(p@, h),
                    })
                    &&& final(self)@ =~= old(self)@.push(u@)
                },
                Err(e) => {
                    &&& final(self)@ == old(self)@
                    &&& (e == UserServiceError::UserAlreadyExists ==> spec_email_taken(
                        old(self)@,
                        email@,
                    ))
                    &&& (e == UserServiceError::UnknownError || e
                        == UserServiceError::UserAlreadyExists)
                    &&& (e == UserServiceError::UnknownError ==> password is Some)
                },
            },
    {
        let hashed: Option<String> = match password {
            None => None,
            Some(p) => match hash(p) {
                Ok(h) => Some(h),
                Err(_) => {
                    return Err(UserServiceError::UnknownError);
                },
            },
        };
        let n = self.users.len();
        let mut i: usize = 0;
        let mut email_string = String::new();
        email_string.append(email);
        while i < n
            invariant
                i <= n,
                n == self.users@.len(),
                n == self@.len(),
                email_string@ == email@,
                forall|j: int| 0 <= j < i ==> #[trigger] self@[j].email != email@,
            decreases n - i,
        {
            if self.users[i].email == email_string {
                proof {
                    assert(self@[i as int].email == email@);
                }
                return Err(UserServiceError::UserAlreadyExists);
            }
            i = i + 1;
        }
        let mut name_string = String::new();
        name_string.append(name);
        let id = Uuid { value: (n as u128) + 1 };
        let user = User {
            id,
            name: name_string,
            email: email_string,
            password: hashed,
            created_at: now,
            updated_at: now,
            deleted_at: None,
        };
        let result = user.clone();
        let ghost pre = self@;
        self.users.push(user);
        proof {
            assert(self@ =~= pre.push(result@));
        }
        Ok(result)
    }
}


/// The decision a credential check makes once the store has answered the
/// email lookup: no row is `UserNotFound`, a row without a hash is
/// `UserDoesNotUsePassword`, and otherwise the password must verify against
/// the stored hash (`WrongPassword` when it does not).
pub fn credentials_outcome(row: Option<User>, password: &str) -> (r: Result<
    User,
    UserServiceError,
>)
    ensures
        match row {
            None => r == Err::<User, UserServiceError>(UserServiceError::UserNotFound),
            Some(u) => (match r {
                Ok(out) => out == u && (u@.password matches Some(h) && argon2_verifies(
                    password@,
                    h,
                )),
                Err(e) => (e == UserServiceError::UserDoesNotUsePassword && u@.password is None)
                    || (e == UserServiceError::WrongPassword && (u@.password matches Some(h)
                    && !argon2_verifies(password@, h))),
            }),
        },
{
    match row {
        None => Err(UserServiceError::UserNotFound),
        Some(u) => match &u.password {
            None => Err(UserServiceError::UserDoesNotUsePassword),
            Some(h) => {
                if verify(password, h.as_str()) {
                    let user = u.clone();
                    Ok(user)
                } else {
                    Err(UserServiceError::WrongPassword)
                }
            },
        },
    }
}

} // verus!
