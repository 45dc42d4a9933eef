//! Controllers called by request handlers.
//!
//! Controller responsibilities:
//! - take request parameters as input values,
//! - validate input parameters (when needed),
//! - orchestrate the storage facade so the business logic is executed,
//! - convert output values into transfer objects.

use crate::dto::{LoginDto, NoteDto, NoteDtoView};
use crate::entities::{spec_new_note, NoteEntity, NoteView, UserView};
use crate::errors::{err_creating_note_failed, err_invalid_login_or_password, NordNotesError};
use crate::params::{CreateNoteParams, LoginParams};
use crate::repositories::{spec_add_note, spec_find_note, spec_visible_notes};
use crate::storage::{spec_delete_all, spec_first_user, Storage};
use crate::utils::{in_timestamp_range, now_unix_seconds, spec_expiration};
use vstd::prelude::*;
use vstd::string::*;

verus! {

/// What the list view shows of each note: the identifier and the title.
/// The content is intentionally omitted from list views.
pub open spec fn spec_note_list(notes: Seq<NoteView>) -> Seq<NoteDtoView> {
    notes.map(
        |i: int, n: NoteView|
            NoteDtoView { note_id: n.note_id, title: Some(n.title), content: None },
    )
}

/// Shapes notes as list entries: identifier and title only.
fn note_summaries(notes: &Vec<NoteEntity>) -> (r: Vec<NoteDto>)
    ensures
        r.deep_view() == spec_note_list(notes.deep_view()),
{
    let mut result: Vec<NoteDto> = Vec::new();
    let mut i: usize = 0;
    proof {
        assert(result.deep_view() =~= spec_note_list(notes.deep_view().subrange(0, 0)));
    }
    while i < notes.len()
        invariant
            i <= notes.len(),
            result.deep_view() == spec_note_list(notes.deep_view().subrange(0, i as int)),
        decreases notes.len() - i,
    {
        let note = &notes[i];
        let dto = NoteDto {
            note_id: note.note_id.clone(),
            title: Some(note.title.clone()),
            content: None,
        };
        let ghost dto_view = dto@;
        let ghost pre_result = result.deep_view();
        result.push(dto);
        proof {
            assert(result.deep_view() =~= pre_result.push(dto_view));
            assert(result.deep_view() =~= spec_note_list(notes.deep_view().subrange(0, i + 1)));
        }
        i += 1;
    }
    proof {
        assert(notes.deep_view().subrange(0, notes.deep_view().len() as int) =~= notes.deep_view());
    }
    result
}

/// Controller for deleting all notes: clears the store, expired notes
/// included, and confirms.
pub fn controller_delete_notes(storage: &mut Storage) -> (r: Result<String, NordNotesError>)
    ensures
        final(storage)@ == spec_delete_all(old(storage)@),
        final(storage).inv(),
        r matches Ok(msg) && msg@ == "all notes deleted"@,
{
    match storage.delete_notes() {
        Ok(_) => Ok(String::from_str("all notes deleted")),
        Err(e) => Err(e),
    }
}

/// Controller for retrieving a list of notes: every note that has not
/// expired, as identifier and title.
pub fn controller_list_notes(storage: &Storage) -> (r: Result<Vec<NoteDto>, NordNotesError>)
    ensures
        exists|now: i64|
            in_timestamp_range(now as int) && (r matches Ok(dtos) && dtos.deep_view()
                == spec_note_list(#[trigger] spec_visible_notes(storage@.notes, now))),
{
    let now = now_unix_seconds();
    let notes = storage.get_notes_at(now);
    let dtos = note_summaries(&notes);
    proof {
        assert(in_timestamp_range(now as int) && dtos.deep_view() == spec_note_list(
            spec_visible_notes(storage@.notes, now),
        ));
    }
    Ok(dtos)
}

/// Controller for retrieving a single note, with title and content; a note
/// that has expired is as absent as a missing one.
pub fn controller_get_note(note_id: String, storage: &Storage) -> (r: Result<
    NoteDto,
    NordNotesError,
>)
    ensures
        exists|now: i64|
            in_timestamp_range(now as int) && (match r {
                Ok(dto) => #[trigger] spec_find_note(storage@.notes, note_id@, now) matches Some(n)
                    && dto@.note_id == n.note_id && dto@.title == Some(n.title) && dto@.content
                    == Some(n.content),
                Err(_) => spec_find_note(storage@.notes, note_id@, now) is None,
            }),
        r matches Err(e) ==> e@ == "note not found, id = "@ + note_id@,
{
    let now = now_unix_seconds();
    match storage.get_note_at(note_id.as_str(), now) {
        Ok(note) => {
            let dto = NoteDto::from(&note);
            proof {
                assert(spec_find_note(storage@.notes, note_id@, now) matches Some(n) && dto@.note_id
                    == n.note_id && dto@.title == Some(n.title) && dto@.content == Some(n.content));
            }
            Ok(dto)
        },
        Err(e) => {
            proof {
                assert(spec_find_note(storage@.notes, note_id@, now) is None);
            }
            Err(e)
        },
    }
}

/// Controller for creating a new note: validates the parameters, stores the
/// note, and returns a transfer object carrying only the fresh identifier.
pub fn controller_create_note(params: CreateNoteParams, storage: &mut Storage) -> (r: Result<
    NoteDto,
    NordNotesError,
>)
    ensures
        old(storage).inv() ==> final(storage).inv(),
        final(storage)@.users == old(storage)@.users,
        params.title is None ==> (r matches Err(e) && e@
            == "required attribute not specified, name = "@ + "title"@ && final(storage)@ == old(
            storage,
        )@),
        params.title is Some && params.content is None ==> (r matches Err(e) && e@
            == "required attribute not specified, name = "@ + "content"@ && final(storage)@ == old(
            storage,
        )@),
        params.title matches Some(t) ==> (params.content matches Some(c) ==> (r matches Ok(dto)
            && dto@.title is None && dto@.content is None && dto@.note_id.len() == 36 && exists|
            now: i64,
        |
            #![trigger spec_expiration(params.spec_ttl(), now)]
            in_timestamp_range(now as int) && final(storage)@.notes == spec_add_note(
                old(storage)@.notes,
                spec_new_note(t@, c@, params.spec_ttl(), now, dto@.note_id),
            ))),
{
    match params.validate() {
        Ok((title, content, ttl)) => {
            let now = now_unix_seconds();
            match storage.create_note_at(title.as_str(), content.as_str(), ttl.as_str(), now) {
                Ok(note_id) => {
                    let dto = NoteDto { note_id, title: None, content: None };
                    proof {
                        assert(spec_expiration(params.spec_ttl(), now) == spec_expiration(
                            ttl@,
                            now,
                        ));
                        assert(in_timestamp_range(now as int) && storage@.notes == spec_add_note(
                            old(storage)@.notes,
                            spec_new_note(title@, content@, params.spec_ttl(), now, dto.note_id@),
                        ));
                    }
                    Ok(dto)
                },
                Err(_) => Err(err_creating_note_failed()),
            }
        },
        Err(e) => Err(e),
    }
}

/// Controller for user login: validates the parameters and issues a token
/// where the credentials match a user record.
pub fn controller_login(params: LoginParams, storage: &mut Storage) -> (r: Result<
    LoginDto,
    NordNotesError,
>)
    ensures
        final(storage)@.notes == old(storage)@.notes,
        params.login is None ==> (r matches Err(e) && e@
            == "required attribute not specified, name = "@ + "login"@ && final(storage)@ == old(
            storage,
        )@),
        params.login is Some && params.password is None ==> (r matches Err(e) && e@
            == "required attribute not specified, name = "@ + "password"@ && final(storage)@ == old(
            storage,
        )@),
        params.login matches Some(l) ==> (params.password matches Some(p) ==> ((spec_first_user(
            old(storage)@.users,
            l@,
            p@,
        ) is None ==> (r matches Err(e) && e@ == "invalid login or password"@ && final(storage)@
            == old(storage)@)) && (spec_first_user(old(storage)@.users, l@, p@) matches Some(j)
            ==> (r matches Ok(dto) && dto.token@.len() == 36 && final(storage)@.users == old(
            storage,
        )@.users.update(j, UserView { token: Some(dto.token@), ..old(storage)@.users[j] }))))),
{
    match params.validate() {
        Ok((login, password)) => {
            match storage.get_token(login.as_str(), password.as_str()) {
                Some(token) => Ok(LoginDto { token }),
                None => Err(err_invalid_login_or_password()),
            }
        },
        Err(e) => Err(e),
    }
}

} // verus!
