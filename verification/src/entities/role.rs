//! Role entity.

use crate::entities::Entity;
use crate::utils::uuid;
use vstd::prelude::*;
use vstd::string::*;

verus! {

/// The characters of a string mapped to upper case.
pub uninterp spec fn upper_of(s: Seq<char>) -> Seq<char>;

/// Relies on `str::to_uppercase`: the result is a function of the
/// characters alone.
#[verifier::external_body]
fn to_uppercase(s: &str) -> (r: String)
    ensures
        r@ == upper_of(s@),
{
    s.to_uppercase()
}

/// The mathematical content of a role.
#[verifier::ext_equal]
pub struct RoleView {
    /// Unique role identifier.
    pub role_id: Seq<char>,
    /// Role name, always upper case.
    pub name: Seq<char>,
}

/// Role entity.
#[derive(Debug)]
pub struct RoleEntity {
    /// Unique role identifier.
    role_id: String,
    /// Role name (always uppercase).
    name: String,
}

impl View for RoleEntity {
    type V = RoleView;

    closed spec fn view(&self) -> RoleView {
        RoleView { role_id: self.role_id@, name: self.name@ }
    }
}

impl Clone for RoleEntity {
    fn clone(&self) -> (r: Self)
        ensures
            r == *self,
    {
        RoleEntity { role_id: self.role_id.clone(), name: self.name.clone() }
    }
}

impl Entity for RoleEntity {
    open spec fn spec_id(&self) -> Seq<char> {
        self@.role_id
    }

    /// Returns role's unique identifier.
    fn id(&self) -> (r: String)
        ensures
            r@ == self.spec_id(),
    {
        self.role_id.clone()
    }
}

impl RoleEntity {
    /// Creates a new role with a fresh 36-character identifier and the
    /// given name mapped to upper case.
    pub fn new(name: &str) -> (r: RoleEntity)
        ensures
            r@.name == upper_of(name@),
            r@.role_id.len() == 36,
    {
        RoleEntity { role_id: uuid(), name: to_uppercase(name) }
    }

    /// Returns role's name.
    pub fn name(&self) -> (r: String)
        ensures
            r@ == self@.name,
    {
        self.name.clone()
    }
}

} // verus!
