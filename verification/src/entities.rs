//! Database entities: notes and users, with their creation and expiry rules.

pub mod role;

use crate::utils::{
    create_and_expiration_date_time_at, fmt_of, in_timestamp_range, now_unix_seconds,
    parse_timestamp, spec_expiration, ts_of, uuid,
};
use vstd::prelude::*;
use vstd::string::*;

verus! {

/// Common interface for all entities.
pub trait Entity {
    /// The entity's unique identifier, in specification form.
    spec fn spec_id(&self) -> Seq<char>;

    /// Returns entity's unique identifier.
    fn id(&self) -> (r: String)
        ensures
            r@ == self.spec_id(),
    ;
}

/// The mathematical content of a note: every field as a character sequence.
#[verifier::ext_equal]
pub struct NoteView {
    /// Unique note identifier.
    pub note_id: Seq<char>,
    /// Title of the note.
    pub title: Seq<char>,
    /// Content of the note.
    pub content: Seq<char>,
    /// Creation timestamp.
    pub created_at: Seq<char>,
    /// Expiration timestamp, where one exists.
    pub expires_at: Option<Seq<char>>,
}

/// Note entity.
#[derive(Debug)]
pub struct NoteEntity {
    /// Unique note identifier.
    pub note_id: String,
    /// Title of the note.
    pub title: String,
    /// Content of the note.
    pub content: String,
    /// Date and time when the note was created,
    /// in format `YYYY-MM-DDThh:mm:00`.
    pub created_at: String,
    /// Date and time when the note expires,
    /// in format `YYYY-MM-DDThh:mm:00`; `None` means the note never expires.
    pub expires_at: Option<String>,
}

impl View for NoteEntity {
    type V = NoteView;

    open spec fn view(&self) -> NoteView {
        NoteView {
            note_id: self.note_id@,
            title: self.title@,
            content: self.content@,
            created_at: self.created_at@,
            expires_at: self.expires_at.deep_view(),
        }
    }
}

impl DeepView for NoteEntity {
    type V = NoteView;

    open spec fn deep_view(&self) -> NoteView {
        self@
    }
}

impl Clone for NoteEntity {
    fn clone(&self) -> (r: Self)
        ensures
            r == *self,
    {
        NoteEntity {
            note_id: self.note_id.clone(),
            title: self.title.clone(),
            content: self.content.clone(),
            created_at: self.created_at.clone(),
            expires_at: match &self.expires_at {
                Some(s) => Some(s.clone()),
                None => None,
            },
        }
    }
}

/// The note a creation request at instant `now` yields, given the fresh
/// identifier `id`.
pub open spec fn spec_new_note(
    title: Seq<char>,
    content: Seq<char>,
    ttl: Seq<char>,
    now: i64,
    id: Seq<char>,
) -> NoteView {
    NoteView {
        note_id: id,
        title: title,
        content: content,
        created_at: fmt_of(now),
        expires_at: spec_expiration(ttl, now),
    }
}

/// Whether a note counts as expired at instant `now`: it has an expiration
/// string, that string parses as a timestamp, and the timestamp is strictly
/// earlier than `now`. A note without an expiration, or with an expiration
/// that does not parse, never expires.
pub open spec fn spec_note_expired(n: NoteView, now: i64) -> bool {
    match n.expires_at {
        Some(e) => match ts_of(e) {
            Some(t) => t < now,
            None => false,
        },
        None => false,
    }
}

/// A note without an expiration timestamp is never expired, whatever the
/// instant.
pub proof fn lemma_no_expiration_never_expires(n: NoteView)
    requires
        n.expires_at is None,
    ensures
        forall|now: i64| !spec_note_expired(n, now),
{
}

/// A note created with a marker denoting zero minutes expires the moment it
/// is created: its expiration timestamp equals its creation timestamp.
pub proof fn lemma_zero_ttl_expires_at_creation(
    title: Seq<char>,
    content: Seq<char>,
    ttl: Seq<char>,
    now: i64,
    id: Seq<char>,
)
    requires
        crate::utils::spec_ttl_to_minutes(ttl) == Some(0i64),
        in_timestamp_range(now as int),
    ensures
        spec_new_note(title, content, ttl, now, id).expires_at == Some(
            spec_new_note(title, content, ttl, now, id).created_at,
        ),
{
    assert(now + 0i64 * 60 == now);
}

/// A note created with a marker that denotes no duration gets no expiration
/// timestamp and never counts as expired, whatever the instant.
pub proof fn lemma_no_ttl_never_expires(
    title: Seq<char>,
    content: Seq<char>,
    ttl: Seq<char>,
    now: i64,
    id: Seq<char>,
)
    requires
        crate::utils::spec_ttl_to_minutes(ttl) is None,
    ensures
        spec_new_note(title, content, ttl, now, id).expires_at is None,
        forall|t: i64| !spec_note_expired(spec_new_note(title, content, ttl, now, id), t),
{
    lemma_no_expiration_never_expires(spec_new_note(title, content, ttl, now, id));
}

impl NoteEntity {
    /// Creates a note as of the instant `now`: a fresh 36-character
    /// identifier, the given title and content, `now` rendered as the
    /// creation timestamp, and the expiration computed from the
    /// time-to-live marker.
    pub fn new_at(title: &str, content: &str, ttl: &str, now: i64) -> (r: NoteEntity)
        requires
            in_timestamp_range(now as int),
        ensures
            r@ == spec_new_note(title@, content@, ttl@, now, r@.note_id),
            r@.note_id.len() == 36,
    {
        let (created_at, expires_at) = create_and_expiration_date_time_at(ttl, now);
        let r = NoteEntity {
            note_id: uuid(),
            title: String::from_str(title),
            content: String::from_str(content),
            created_at,
            expires_at,
        };
        proof {
            assert(r@ =~= spec_new_note(title@, content@, ttl@, now, r@.note_id));
        }
        r
    }

    /// Creates a new note entity with title, content and expiration time.
    pub fn new(title: &str, content: &str, ttl: &str) -> (r: NoteEntity)
        ensures
            exists|now: i64|
                in_timestamp_range(now as int) && r@ == #[trigger] spec_new_note(
                    title@,
                    content@,
                    ttl@,
                    now,
                    r@.note_id,
                ),
            r@.note_id.len() == 36,
    {
        let now = now_unix_seconds();
        let r = Self::new_at(title, content, ttl, now);
        proof {
            assert(r@ == spec_new_note(title@, content@, ttl@, now, r@.note_id));
        }
        r
    }

    /// Returns `true` when the note counts as expired at the instant `now`.
    pub fn has_expired_at(&self, now: i64) -> (r: bool)
        ensures
            r == spec_note_expired(self@, now),
    {
        match &self.expires_at {
            Some(date_time_str) => match parse_timestamp(date_time_str.as_str()) {
                Some(t) => t < now,
                None => false,
            },
            None => false,
        }
    }

    /// Returns `true` when the note has expired, measured against the
    /// current UTC instant.
    pub fn has_expired(&self) -> (r: bool)
        ensures
            exists|now: i64|
                in_timestamp_range(now as int) && r == #[trigger] spec_note_expired(self@, now),
    {
        let now = now_unix_seconds();
        let r = self.has_expired_at(now);
        proof {
            assert(r == spec_note_expired(self@, now));
        }
        r
    }
}

/// The mathematical content of a user record.
#[verifier::ext_equal]
pub struct UserView {
    /// Unique user identifier.
    pub user_id: Seq<char>,
    /// User login.
    pub login: Seq<char>,
    /// User password.
    pub password: Seq<char>,
    /// Token generated for the user, where one was issued.
    pub token: Option<Seq<char>>,
}

/// User entity.
#[derive(Debug)]
pub struct UserEntity {
    /// Unique user identifier.
    pub user_id: String,
    /// User login.
    pub login: String,
    /// User password.
    pub password: String,
    /// Token generated for the user.
    pub token: Option<String>,
}

impl View for UserEntity {
    type V = UserView;

    open spec fn view(&self) -> UserView {
        UserView {
            user_id: self.user_id@,
            login: self.login@,
            password: self.password@,
            token: self.token.deep_view(),
        }
    }
}

impl DeepView for UserEntity {
    type V = UserView;

    open spec fn deep_view(&self) -> UserView {
        self@
    }
}

impl Clone for UserEntity {
    fn clone(&self) -> (r: Self)
        ensures
            r == *self,
    {
        UserEntity {
            user_id: self.user_id.clone(),
            login: self.login.clone(),
            password: self.password.clone(),
            token: match &self.token {
                Some(s) => Some(s.clone()),
                None => None,
            },
        }
    }
}

impl UserEntity {
    /// Creates a new user entity with a fresh 36-character identifier, the
    /// given credentials, and no token.
    pub fn new(login: &str, password: &str) -> (r: UserEntity)
        ensures
            r@.login == login@,
            r@.password == password@,
            r@.token is None,
            r@.user_id.len() == 36,
    {
        UserEntity {
            user_id: uuid(),
            login: String::from_str(login),
            password: String::from_str(password),
            token: None,
        }
    }
}

} // verus!
