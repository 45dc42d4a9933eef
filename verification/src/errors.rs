//! The common error type used across the `nordnotes` library, and the
//! constructors for each kind of failure the library reports.

use vstd::prelude::*;
use vstd::string::*;

verus! {

/// Common error used across the `nordnotes` library: a human-readable
/// description of what failed. Failed operations never panic; they return
/// this type.
#[derive(Debug)]
pub struct NordNotesError(String);

impl View for NordNotesError {
    type V = Seq<char>;

    closed spec fn view(&self) -> Seq<char> {
        self.0@
    }
}

impl NordNotesError {
    /// The human-readable description carried by the error.
    pub fn details(&self) -> (r: &str)
        ensures
            r@ == self@,
    {
        self.0.as_str()
    }
}

#[verifier::external_type_specification]
#[verifier::external_body]
pub struct ExIoError(std::io::Error);

/// Relies on the `Display` form of `std::io::Error`: a description of the
/// error. Nothing is promised of its content.
#[verifier::external_body]
fn io_error_details(e: &std::io::Error) -> String {
    e.to_string()
}

/// Creates an internal web server error description.
pub fn err_server_internal(e: std::io::Error) -> NordNotesError {
    NordNotesError(io_error_details(&e))
}

/// Creates a non-existing endpoint error.
pub fn err_endpoint_not_found(message: &str) -> (r: NordNotesError)
    ensures
        r@ == "endpoint not found: "@ + message@,
{
    let mut details = String::from_str("endpoint not found: ");
    details.append(message);
    NordNotesError(details)
}

/// Creates a non-existing note error.
pub fn err_note_not_found(note_id: &str) -> (r: NordNotesError)
    ensures
        r@ == "note not found, id = "@ + note_id@,
{
    let mut details = String::from_str("note not found, id = ");
    details.append(note_id);
    NordNotesError(details)
}

/// Creates a non-existing entity error.
pub fn err_entity_not_found(entity: &str, description: &str) -> (r: NordNotesError)
    ensures
        r@ == entity@ + " not found: "@ + description@,
{
    let mut details = String::from_str(entity);
    details.append(" not found: ");
    details.append(description);
    NordNotesError(details)
}

/// Creates a missing required attribute error.
pub fn err_required_attribute_not_specified(attribute_name: &str) -> (r: NordNotesError)
    ensures
        r@ == "required attribute not specified, name = "@ + attribute_name@,
{
    let mut details = String::from_str("required attribute not specified, name = ");
    details.append(attribute_name);
    NordNotesError(details)
}

/// Creates a failed login error.
pub fn err_invalid_login_or_password() -> (r: NordNotesError)
    ensures
        r@ == "invalid login or password"@,
{
    NordNotesError(String::from_str("invalid login or password"))
}

/// Creates a failed note creation error.
pub fn err_creating_note_failed() -> (r: NordNotesError)
    ensures
        r@ == "creating a new note failed"@,
{
    NordNotesError(String::from_str("creating a new note failed"))
}

/// Creates a failed role creation error.
pub fn err_creating_role_failed() -> (r: NordNotesError)
    ensures
        r@ == "creating a new role failed"@,
{
    NordNotesError(String::from_str("creating a new role failed"))
}

/// Creates a not authorized user error.
pub fn err_not_authorized() -> (r: NordNotesError)
    ensures
        r@ == "not authorized"@,
{
    NordNotesError(String::from_str("not authorized"))
}

} // verus!
