//! The data object for users.

use crate::entities::UserView;
use crate::utils::uuid;
use vstd::prelude::*;
use vstd::string::*;

verus! {

/// Data object for user.
#[derive(Debug)]
pub struct User {
    /// Unique user identifier.
    pub user_id: String,
    /// User login.
    pub login: String,
    /// User password.
    pub password: String,
    /// Token generated for the user.
    pub token: Option<String>,
}

impl View for User {
    type V = UserView;

    open spec fn view(&self) -> UserView {
        UserView {
            user_id: self.user_id@,
            login: self.login@,
            password: self.password@,
            token: self.token.deep_view(),
        }
    }
}

impl DeepView for User {
    type V = UserView;

    open spec fn deep_view(&self) -> UserView {
        self@
    }
}

impl Clone for User {
    fn clone(&self) -> (r: Self)
        ensures
            r == *self,
    {
        User {
            user_id: self.user_id.clone(),
            login: self.login.clone(),
            password: self.password.clone(),
            token: match &self.token {
                Some(s) => Some(s.clone()),
                None => None,
            },
        }
    }
}

impl User {
    /// Creates a new user with a fresh 36-character identifier, the given
    /// credentials, and no token.
    pub fn new(login: &str, password: &str) -> (r: User)
        ensures
            r@.login == login@,
            r@.password == password@,
            r@.token is None,
            r@.user_id.len() == 36,
    {
        User {
            user_id: uuid(),
            login: String::from_str(login),
            password: String::from_str(password),
            token: None,
        }
    }
}

} // verus!
