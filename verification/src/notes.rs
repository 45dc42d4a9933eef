//! The data object for notes.

use crate::entities::{spec_new_note, spec_note_expired, NoteView};
use crate::utils::{
    create_and_expiration_date_time_at, in_timestamp_range, now_unix_seconds, parse_timestamp,
    uuid,
};
use vstd::prelude::*;
use vstd::string::*;

verus! {

/// Data object for note.
#[derive(Debug)]
pub struct Note {
    /// Unique note identifier.
    pub note_id: String,
    /// Title of the note.
    pub title: String,
    /// Content of the note.
    pub content: String,
    /// Date and time when the note was created,
    /// in format `YYYY-MM-DDThh:mm:00`.
    pub created_at: String,
    /// Date and time when the note expires,
    /// in format `YYYY-MM-DDThh:mm:00`; `None` means the note never expires.
    pub expires_at: Option<String>,
}

impl View for Note {
    type V = NoteView;

    open spec fn view(&self) -> NoteView {
        NoteView {
            note_id: self.note_id@,
            title: self.title@,
            content: self.content@,
            created_at: self.created_at@,
            expires_at: self.expires_at.deep_view(),
        }
    }
}

impl DeepView for Note {
    type V = NoteView;

    open spec fn deep_view(&self) -> NoteView {
        self@
    }
}

impl Clone for Note {
    fn clone(&self) -> (r: Self)
        ensures
            r == *self,
    {
        Note {
            note_id: self.note_id.clone(),
            title: self.title.clone(),
            content: self.content.clone(),
            created_at: self.created_at.clone(),
            expires_at: match &self.expires_at {
                Some(s) => Some(s.clone()),
                None => None,
            },
        }
    }
}

impl Note {
    /// Creates a note as of the instant `now`; see
    /// [`crate::entities::NoteEntity::new_at`].
    pub fn new_at(title: &str, content: &str, ttl: &str, now: i64) -> (r: Note)
        requires
            in_timestamp_range(now as int),
        ensures
            r@ == spec_new_note(title@, content@, ttl@, now, r@.note_id),
            r@.note_id.len() == 36,
    {
        let (created_at, expires_at) = create_and_expiration_date_time_at(ttl, now);
        let r = Note {
            note_id: uuid(),
            title: String::from_str(title),
            content: String::from_str(content),
            created_at,
            expires_at,
        };
        proof {
            assert(r@ =~= spec_new_note(title@, content@, ttl@, now, r@.note_id));
        }
        r
    }

    /// Creates a new note with title, content and expiration time.
    pub fn new(title: &str, content: &str, ttl: &str) -> (r: Note)
        ensures
            exists|now: i64|
                in_timestamp_range(now as int) && r@ == #[trigger] spec_new_note(
                    title@,
                    content@,
                    ttl@,
                    now,
                    r@.note_id,
                ),
            r@.note_id.len() == 36,
    {
        let now = now_unix_seconds();
        let r = Self::new_at(title, content, ttl, now);
        proof {
            assert(r@ == spec_new_note(title@, content@, ttl@, now, r@.note_id));
        }
        r
    }

    /// Returns `true` when the note counts as expired at the instant `now`.
    pub fn has_expired_at(&self, now: i64) -> (r: bool)
        ensures
            r == spec_note_expired(self@, now),
    {
        match &self.expires_at {
            Some(date_time_str) => match parse_timestamp(date_time_str.as_str()) {
                Some(t) => t < now,
                None => false,
            },
            None => false,
        }
    }

    /// Returns `true` when the note has expired, measured against the
    /// current UTC instant.
    pub fn has_expired(&self) -> (r: bool)
        ensures
            exists|now: i64|
                in_timestamp_range(now as int) && r == #[trigger] spec_note_expired(self@, now),
    {
        let now = now_unix_seconds();
        let r = self.has_expired_at(now);
        proof {
            assert(r == spec_note_expired(self@, now));
        }
        r
    }
}

} // verus!
