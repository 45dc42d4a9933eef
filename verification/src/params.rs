//! Input parameters required by controllers, and their validation: every
//! required attribute must be present, and the first missing one names the
//! rejection.

use crate::errors::{err_required_attribute_not_specified, NordNotesError};
use vstd::prelude::*;
use vstd::string::*;

verus! {

/// Parameters needed when processing user's login.
pub struct LoginParams {
    /// User login.
    pub login: Option<String>,
    /// User password.
    pub password: Option<String>,
}

impl LoginParams {
    /// Validates required parameters for logging a user: both the login and
    /// the password must be present.
    pub fn validate(self) -> (r: Result<(String, String), NordNotesError>)
        ensures
            self.login matches Some(l) ==> (self.password matches Some(p) ==> (r matches Ok(t)
                && t.0 == l && t.1 == p)),
            self.login is None ==> (r matches Err(e) && e@
                == "required attribute not specified, name = "@ + "login"@),
            self.login is Some && self.password is None ==> (r matches Err(e) && e@
                == "required attribute not specified, name = "@ + "password"@),
    {
        if let Some(login) = self.login {
            if let Some(password) = self.password {
                Ok((login, password))
            } else {
                Err(err_required_attribute_not_specified("password"))
            }
        } else {
            Err(err_required_attribute_not_specified("login"))
        }
    }
}

/// Parameters needed when a new note is created.
pub struct CreateNoteParams {
    /// The title of a note.
    pub title: Option<String>,
    /// The content of a note.
    pub content: Option<String>,
    /// Time to live, defines how long the content of a note will be
    /// available, in the format `Nw`, `Nd`, `Nh` or `Nm`.
    pub ttl: Option<String>,
}

impl CreateNoteParams {
    /// The time-to-live marker these parameters denote: the given one, or
    /// the empty marker (no expiration) where none was given.
    pub open spec fn spec_ttl(&self) -> Seq<char> {
        match self.ttl {
            Some(x) => x@,
            None => Seq::<char>::empty(),
        }
    }

    /// Validates required parameters for creating a new note: the title and
    /// the content must be present; a missing time-to-live marker stands
    /// for the empty marker, which denotes no expiration.
    pub fn validate(self) -> (r: Result<(String, String, String), NordNotesError>)
        ensures
            self.title matches Some(t) ==> (self.content matches Some(c) ==> (r matches Ok(out)
                && out.0 == t && out.1 == c && out.2@ == self.spec_ttl())),
            self.title is None ==> (r matches Err(e) && e@
                == "required attribute not specified, name = "@ + "title"@),
            self.title is Some && self.content is None ==> (r matches Err(e) && e@
                == "required attribute not specified, name = "@ + "content"@),
    {
        if let Some(title) = self.title {
            if let Some(content) = self.content {
                let ttl = match self.ttl {
                    Some(x) => x,
                    None => String::new(),
                };
                Ok((title, content, ttl))
            } else {
                Err(err_required_attribute_not_specified("content"))
            }
        } else {
            Err(err_required_attribute_not_specified("title"))
        }
    }
}

/// Parameters needed when a new role is created.
pub struct CreateRoleParams {
    /// Name of a role.
    pub name: Option<String>,
}

impl CreateRoleParams {
    /// Validates attributes required when creating a new role: the name
    /// must be present.
    pub fn validate(self) -> (r: Result<String, NordNotesError>)
        ensures
            self.name matches Some(n) ==> (r matches Ok(out) && out == n),
            self.name is None ==> (r matches Err(e) && e@
                == "required attribute not specified, name = "@ + "name"@),
    {
        if let Some(name) = self.name {
            Ok(name)
        } else {
            Err(err_required_attribute_not_specified("name"))
        }
    }
}

} // verus!
