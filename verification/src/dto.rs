//! Data transfer objects: the plain values handed to the request-handling
//! layer, and the uniform result envelope.

use crate::entities::role::RoleEntity;
use crate::entities::{Entity, NoteEntity};
use crate::errors::NordNotesError;
use vstd::prelude::*;
use vstd::string::*;

verus! {

/// Data transfer object for an error.
#[derive(Debug)]
pub struct ErrorDto {
    /// Error details.
    details: String,
}

impl View for ErrorDto {
    type V = Seq<char>;

    closed spec fn view(&self) -> Seq<char> {
        self.details@
    }
}

impl DeepView for ErrorDto {
    type V = Seq<char>;

    open spec fn deep_view(&self) -> Seq<char> {
        self@
    }
}

/// Data transfer object for the result: valid data or errors, never both.
pub struct ResultDto<T> {
    /// Result containing data.
    data: Option<T>,
    /// Result containing errors.
    errors: Vec<ErrorDto>,
}

impl<T> ResultDto<T> {
    /// The data carried by the result, where there is any.
    pub closed spec fn spec_data(&self) -> Option<T> {
        self.data
    }

    /// The details of the errors carried by the result.
    pub closed spec fn spec_errors(&self) -> Seq<Seq<char>> {
        self.errors.deep_view()
    }

    /// Creates a result with some data inside and no errors.
    pub fn data(d: T) -> (r: ResultDto<T>)
        ensures
            r.spec_data() == Some(d),
            r.spec_errors() == Seq::<Seq<char>>::empty(),
    {
        let r = ResultDto { data: Some(d), errors: Vec::new() };
        proof {
            assert(r.spec_errors() =~= Seq::<Seq<char>>::empty());
        }
        r
    }

    /// Creates a result with a single error inside and no data.
    pub fn error(err: NordNotesError) -> (r: ResultDto<T>)
        ensures
            r.spec_data() is None,
            r.spec_errors().len() == 1,
            r.spec_errors()[0] == err@,
    {
        let details = String::from_str(err.details());
        let mut errors: Vec<ErrorDto> = Vec::new();
        errors.push(ErrorDto { details });
        let r = ResultDto { data: None, errors };
        proof {
            assert(r.spec_errors() =~= seq![err@]);
        }
        r
    }
}

impl<T> Default for ResultDto<T> {
    /// Creates the default result structure: no data, no errors.
    fn default() -> (r: Self)
        ensures
            r.spec_data() is None,
            r.spec_errors() == Seq::<Seq<char>>::empty(),
    {
        let r = ResultDto { data: None, errors: Vec::new() };
        proof {
            assert(r.spec_errors() =~= Seq::<Seq<char>>::empty());
        }
        r
    }
}

/// Data transfer object for service information.
#[derive(Debug)]
pub struct ServiceInfoDto {
    /// Service name.
    pub name: String,
    /// Service version.
    pub version: String,
    /// Legal note.
    pub legal_note: String,
}

/// Data transfer object for system information.
#[derive(Debug)]
pub struct SystemInfoDto {
    /// Service name.
    pub name: String,
    /// Service version.
    pub version: String,
    /// Legal note.
    pub legal_note: String,
}

/// The mathematical content of a note transfer object.
#[verifier::ext_equal]
pub struct NoteDtoView {
    /// Unique note identifier.
    pub note_id: Seq<char>,
    /// Title of the note, where it is carried.
    pub title: Option<Seq<char>>,
    /// Content of the note, where it is carried.
    pub content: Option<Seq<char>>,
}

/// Data transfer object for a note.
#[derive(Debug)]
pub struct NoteDto {
    /// Unique note identifier.
    pub note_id: String,
    /// Title of the note (optional in list views).
    pub title: Option<String>,
    /// Content of the note (optional).
    pub content: Option<String>,
}

impl View for NoteDto {
    type V = NoteDtoView;

    open spec fn view(&self) -> NoteDtoView {
        NoteDtoView {
            note_id: self.note_id@,
            title: self.title.deep_view(),
            content: self.content.deep_view(),
        }
    }
}

impl DeepView for NoteDto {
    type V = NoteDtoView;

    open spec fn deep_view(&self) -> NoteDtoView {
        self@
    }
}

impl Default for NoteDto {
    /// Creates an empty note transfer object.
    fn default() -> (r: Self)
        ensures
            r.note_id@ == Seq::<char>::empty(),
            r.title is None,
            r.content is None,
    {
        NoteDto { note_id: String::new(), title: None, content: None }
    }
}

impl NoteDto {
    /// Converts a reference to a note entity into a full transfer object:
    /// identifier, title and content all carried over.
    pub fn from(note: &NoteEntity) -> (r: Self)
        ensures
            r.note_id@ == note@.note_id,
            r.title.deep_view() == Some(note@.title),
            r.content.deep_view() == Some(note@.content),
    {
        NoteDto {
            note_id: note.note_id.clone(),
            title: Some(note.title.clone()),
            content: Some(note.content.clone()),
        }
    }
}

/// Data transfer object for login result.
#[derive(Debug)]
pub struct LoginDto {
    /// The issued bearer token.
    pub token: String,
}

/// Data transfer object for a role.
#[derive(Debug)]
pub struct RoleDto {
    /// Unique role identifier.
    pub role_id: String,
    /// Name of the role.
    pub name: Option<String>,
}

impl Default for RoleDto {
    /// Creates an empty role transfer object.
    fn default() -> (r: Self)
        ensures
            r.role_id@ == Seq::<char>::empty(),
            r.name is None,
    {
        RoleDto { role_id: String::new(), name: None }
    }
}

impl RoleDto {
    /// Converts a reference to a role entity into a transfer object.
    pub fn from(role: &RoleEntity) -> (r: Self)
        ensures
            r.role_id@ == role@.role_id,
            r.name.deep_view() == Some(role@.name),
    {
        RoleDto { role_id: role.id(), name: Some(role.name()) }
    }
}

} // verus!
