//! Storage facade: owns the note collection and the user collection, and
//! composes the note store with the token service behind one handle.
//!
//! The facade holds its state in memory. A caller that wants shared access
//! from many tasks wraps it in a lock; every operation here is plain,
//! bounded, CPU-only work.

use crate::entities::{spec_new_note, NoteEntity, NoteView, UserEntity, UserView};
use crate::errors::NordNotesError;
use crate::repositories::{
    spec_add_note, spec_find_note, spec_visible_notes, NotesRepository, NOTES_CAPACITY,
};
use crate::utils::{
    find_char_from, in_timestamp_range, lemma_find_char_props, now_unix_seconds, spec_find_char,
    uuid,
};
use vstd::prelude::*;
use vstd::string::*;

verus! {

/// Name of the keyspace a persisted backend would use.
pub const KEYSPACE: &'static str = "nordnotes";

/// Statement that creates the keyspace in a persisted backend.
pub const QUERY_CREATE_KEYSPACE: &'static str =
    "CREATE KEYSPACE IF NOT EXISTS nordnotes WITH REPLICATION = {'class' : 'SimpleStrategy', 'replication_factor' : 1}";

/// The mathematical content of the storage: the held notes in insertion
/// order, and the user records.
#[verifier::ext_equal]
pub struct StorageView {
    /// The held notes, oldest-inserted first.
    pub notes: Seq<NoteView>,
    /// The user records, in load order.
    pub users: Seq<UserView>,
}

/// Whether a user record carries exactly these credentials. The comparison
/// is case-sensitive, character for character.
pub open spec fn spec_user_matches(u: UserView, login: Seq<char>, password: Seq<char>) -> bool {
    u.login == login && u.password == password
}

/// The position of the first user record matching the credentials, or
/// `None` where no record matches.
pub open spec fn spec_first_user(
    users: Seq<UserView>,
    login: Seq<char>,
    password: Seq<char>,
) -> Option<int>
    decreases users.len(),
{
    if users.len() == 0 {
        None
    } else if spec_user_matches(users[0], login, password) {
        Some(0)
    } else {
        match spec_first_user(users.subrange(1, users.len() as int), login, password) {
            Some(i) => Some(i + 1),
            None => None,
        }
    }
}

/// Whether some user record holds this token.
pub open spec fn spec_token_valid(users: Seq<UserView>, token: Seq<char>) -> bool {
    exists|i: int| 0 <= i < users.len() && (#[trigger] users[i]).token == Some(token)
}

/// Where no user record carries the given credentials, no token is issued.
pub proof fn lemma_no_matching_credentials_no_token(
    users: Seq<UserView>,
    login: Seq<char>,
    password: Seq<char>,
)
    requires
        forall|k: int|
            0 <= k < users.len() ==> !spec_user_matches(#[trigger] users[k], login, password),
    ensures
        spec_first_user(users, login, password) is None,
    decreases users.len(),
{
    if users.len() > 0 {
        let tail = users.subrange(1, users.len() as int);
        assert(forall|k: int|
            0 <= k < tail.len() ==> !spec_user_matches(#[trigger] tail[k], login, password)) by {
            assert(forall|k: int| 0 <= k < tail.len() ==> tail[k] == users[k + 1]);
        }
        lemma_no_matching_credentials_no_token(tail, login, password);
    }
}

proof fn lemma_first_user_from_index(
    users: Seq<UserView>,
    login: Seq<char>,
    password: Seq<char>,
    j: int,
)
    requires
        0 <= j < users.len(),
        spec_user_matches(users[j], login, password),
        forall|k: int| 0 <= k < j ==> !spec_user_matches(#[trigger] users[k], login, password),
    ensures
        spec_first_user(users, login, password) == Some(j),
    decreases j,
{
    if j == 0 {
    } else {
        let tail = users.subrange(1, users.len() as int);
        assert(tail[j - 1] == users[j]);
        assert(forall|k: int| 0 <= k < j - 1 ==> tail[k] == users[k + 1]);
        lemma_first_user_from_index(tail, login, password, j - 1);
    }
}

/// A token issued for a matching credential pair validates: writing the
/// token onto the matched user record makes the token-validity check accept
/// exactly that token.
pub proof fn lemma_issued_token_validates(users: Seq<UserView>, j: int, t: Seq<char>)
    requires
        0 <= j < users.len(),
    ensures
        spec_token_valid(users.update(j, UserView { token: Some(t), ..users[j] }), t),
{
    let updated = users.update(j, UserView { token: Some(t), ..users[j] });
    assert(updated[j].token == Some(t));
}

/// What deleting all notes leaves behind: the users untouched, no notes.
pub open spec fn spec_delete_all(s: StorageView) -> StorageView {
    StorageView { notes: Seq::empty(), ..s }
}

/// Deleting all notes twice in a row leaves what deleting once leaves, and
/// either way the store holds no notes: delete-all is idempotent.
pub proof fn lemma_delete_all_idempotent(s: StorageView)
    ensures
        spec_delete_all(spec_delete_all(s)) == spec_delete_all(s),
        spec_delete_all(s).notes.len() == 0,
{
    assert(spec_delete_all(spec_delete_all(s)) =~= spec_delete_all(s));
}

/// A line with the carriage return of a Windows line ending stripped from
/// its end, as `str::lines` strips it.
pub open spec fn spec_strip_cr(line: Seq<char>) -> Seq<char> {
    if line.len() > 0 && line.last() == '\r' {
        line.drop_last()
    } else {
        line
    }
}

/// The credential pair a `login:password` line denotes: what stands before
/// the first colon, and what stands between the first and the second colon,
/// or the rest of the line where there is no second colon. A line without a
/// colon denotes nothing and is skipped.
pub open spec fn spec_parse_user_line(line: Seq<char>) -> Option<(Seq<char>, Seq<char>)> {
    match spec_find_char(line, ':') {
        None => None,
        Some(i) => {
            let login = line.subrange(0, i);
            let rest = line.subrange(i + 1, line.len() as int);
            let password = match spec_find_char(rest, ':') {
                Some(j) => rest.subrange(0, j),
                None => rest,
            };
            Some((login, password))
        },
    }
}

/// The lines of a text, split on `\n`; a trailing newline opens no empty
/// last line.
pub open spec fn spec_lines(s: Seq<char>) -> Seq<Seq<char>>
    decreases s.len() via spec_lines_decreases
{
    if s.len() == 0 {
        Seq::empty()
    } else {
        match spec_find_char(s, '\n') {
            None => seq![s],
            Some(i) => seq![s.subrange(0, i)] + spec_lines(s.subrange(i + 1, s.len() as int)),
        }
    }
}

#[via_fn]
proof fn spec_lines_decreases(s: Seq<char>) {
    lemma_find_char_props(s, '\n');
}

/// The credential pairs a sequence of lines denotes, malformed lines
/// skipped.
pub open spec fn spec_user_pairs(lines: Seq<Seq<char>>) -> Seq<(Seq<char>, Seq<char>)>
    decreases lines.len(),
{
    if lines.len() == 0 {
        Seq::empty()
    } else {
        let rest = spec_user_pairs(lines.subrange(1, lines.len() as int));
        match spec_parse_user_line(spec_strip_cr(lines[0])) {
            Some(pair) => seq![pair] + rest,
            None => rest,
        }
    }
}

/// The credential pairs of a whole credential text.
pub open spec fn spec_load_users(content: Seq<char>) -> Seq<(Seq<char>, Seq<char>)> {
    spec_user_pairs(spec_lines(content))
}

/// The login and password of each user record, in order.
pub open spec fn spec_credential_pairs(users: Seq<UserView>) -> Seq<(Seq<char>, Seq<char>)> {
    users.map(|i: int, u: UserView| (u.login, u.password))
}

/// Whether user records carry exactly these credential pairs, in order,
/// each without a token and with a fresh 36-character identifier.
pub open spec fn spec_users_match(
    users: Seq<UserView>,
    pairs: Seq<(Seq<char>, Seq<char>)>,
) -> bool {
    &&& spec_credential_pairs(users) == pairs
    &&& forall|i: int|
        0 <= i < users.len() ==> (#[trigger] users[i]).token is None && users[i].user_id.len()
            == 36
}

/// Loads user names and passwords from the text of a credential source: one
/// `login:password` record per line, lines without a colon skipped. Reading
/// the text is the caller's business; this function owns the record syntax.
pub fn load_users(content: &str) -> (r: Vec<UserEntity>)
    ensures
        spec_users_match(r.deep_view(), spec_load_users(content@)),
{
    let n = content.unicode_len();
    let mut users: Vec<UserEntity> = Vec::new();
    let mut p: usize = 0;
    proof {
        assert(users.deep_view() =~= Seq::<UserView>::empty());
        assert(spec_credential_pairs(users.deep_view()) =~= Seq::<(Seq<char>, Seq<char>)>::empty());
        assert(content@.subrange(0, n as int) =~= content@);
        assert(spec_load_users(content@) =~= spec_credential_pairs(users.deep_view())
            + spec_user_pairs(spec_lines(content@.subrange(0, n as int))));
    }
    while p < n
        invariant
            p <= n,
            n == content@.len(),
            spec_load_users(content@) == spec_credential_pairs(users.deep_view())
                + spec_user_pairs(spec_lines(content@.subrange(p as int, n as int))),
            forall|i: int|
                0 <= i < users.deep_view().len() ==> (#[trigger] users.deep_view()[i]).token
                    is None && users.deep_view()[i].user_id.len() == 36,
        decreases n - p,
    {
        let ghost remaining = content@.subrange(p as int, n as int);
        let ghost users_pre = users.deep_view();
        let k = find_char_from(content, p, '\n');
        let line = content.substring_char(p, k);
        let line_len = k - p;
        let ghost lines = spec_lines(remaining);
        let next_p = if k < n {
            k + 1
        } else {
            n
        };
        let ghost next_remaining = content@.subrange(next_p as int, n as int);
        proof {
            assert(remaining =~= content@.subrange(p as int, n as int));
            assert(line@ =~= remaining.subrange(0, k - p));
            if k < n {
                assert(spec_find_char(remaining, '\n') == Some(k - p));
                assert(remaining.subrange(0, k - p) == line@);
                assert(remaining.subrange(k - p + 1, remaining.len() as int) =~= next_remaining);
                assert(lines == seq![line@] + spec_lines(next_remaining));
            } else {
                assert(spec_find_char(remaining, '\n') is None);
                assert(remaining == line@);
                assert(lines == seq![line@]);
                assert(next_remaining =~= Seq::<char>::empty());
                assert(spec_lines(next_remaining) =~= Seq::<Seq<char>>::empty());
            }
            assert(lines.len() > 0);
            assert(lines[0] == line@);
            assert(lines.subrange(1, lines.len() as int) =~= spec_lines(next_remaining));
        }
        let trimmed = if line_len > 0 && line.get_char(line_len - 1) == '\r' {
            line.substring_char(0, line_len - 1)
        } else {
            line
        };
        proof {
            if line@.len() > 0 && line@.last() == '\r' {
                assert(trimmed@ =~= line@.drop_last());
            }
            assert(trimmed@ == spec_strip_cr(line@));
        }
        let tlen = trimmed.unicode_len();
        let ci = find_char_from(trimmed, 0, ':');
        proof {
            assert(trimmed@.subrange(0, trimmed@.len() as int) =~= trimmed@);
        }
        if ci < tlen {
            let login = trimmed.substring_char(0, ci);
            let rest = trimmed.substring_char(ci + 1, tlen);
            let pj = find_char_from(rest, 0, ':');
            let password = rest.substring_char(0, pj);
            proof {
                assert(spec_find_char(trimmed@, ':') == Some(ci as int));
                assert(rest@.subrange(0, rest@.len() as int) =~= rest@);
                assert(login@ == trimmed@.subrange(0, ci as int));
                assert(rest@ == trimmed@.subrange(ci + 1, trimmed@.len() as int));
                if pj < tlen - (ci + 1) {
                    assert(spec_find_char(rest@, ':') == Some(pj as int));
                } else {
                    assert(spec_find_char(rest@, ':') is None);
                    assert(password@ =~= rest@);
                }
                assert(spec_parse_user_line(trimmed@) == Some((login@, password@)));
            }
            let user = UserEntity::new(login, password);
            users.push(user);
            proof {
                assert(users.deep_view() =~= users_pre.push(
                    UserView {
                        user_id: user.user_id@,
                        login: login@,
                        password: password@,
                        token: None,
                    },
                ));
                assert(spec_credential_pairs(users.deep_view()) =~= spec_credential_pairs(
                    users_pre,
                ).push((login@, password@)));
                assert(spec_user_pairs(lines) == seq![(login@, password@)] + spec_user_pairs(
                    spec_lines(next_remaining),
                ));
                assert(spec_credential_pairs(users.deep_view()) + spec_user_pairs(
                    spec_lines(next_remaining),
                ) =~= spec_credential_pairs(users_pre) + spec_user_pairs(lines));
            }
        } else {
            proof {
                assert(spec_find_char(trimmed@, ':') is None);
                assert(spec_parse_user_line(trimmed@) is None);
                assert(spec_user_pairs(lines) == spec_user_pairs(spec_lines(next_remaining)));
            }
        }
        p = next_p;
    }
    proof {
        assert(content@.subrange(p as int, n as int) =~= Seq::<char>::empty());
        assert(spec_lines(Seq::<char>::empty()) =~= Seq::<Seq<char>>::empty());
        assert(spec_user_pairs(Seq::<Seq<char>>::empty()) =~= Seq::<(Seq<char>, Seq<char>)>::empty());
        assert(spec_credential_pairs(users.deep_view()) + Seq::<(Seq<char>, Seq<char>)>::empty()
            =~= spec_credential_pairs(users.deep_view()));
    }
    users
}

/// Shared application data: the bounded note store and the user records.
pub struct Storage {
    /// Notes repository.
    notes_repository: NotesRepository,
    /// Collection of users.
    users: Vec<UserEntity>,
}

impl View for Storage {
    type V = StorageView;

    closed spec fn view(&self) -> StorageView {
        StorageView { notes: self.notes_repository@, users: self.users.deep_view() }
    }
}

impl Storage {
    /// The capacity bound on held notes, preserved by every operation.
    pub open spec fn inv(&self) -> bool {
        self@.notes.len() <= NOTES_CAPACITY
    }

    /// Initializes the storage: no notes, the given user records.
    pub fn new(users: Vec<UserEntity>) -> (r: Storage)
        ensures
            r@.notes == Seq::<NoteView>::empty(),
            r@.users == users.deep_view(),
            r.inv(),
    {
        Storage { notes_repository: NotesRepository::new(), users }
    }

    /// Creates a note as of instant `now` and stores it, evicting the
    /// oldest-inserted note where the store is at capacity; returns the
    /// fresh note's identifier.
    pub fn create_note_at(&mut self, title: &str, content: &str, ttl: &str, now: i64) -> (r: Result<
        String,
        NordNotesError,
    >)
        requires
            in_timestamp_range(now as int),
        ensures
            old(self).inv() ==> final(self).inv(),
            final(self)@.users == old(self)@.users,
            r matches Ok(id) && id@.len() == 36 && final(self)@.notes == spec_add_note(
                old(self)@.notes,
                spec_new_note(title@, content@, ttl@, now, id@),
            ),
    {
        let note = NoteEntity::new_at(title, content, ttl, now);
        self.notes_repository.add(note)
    }

    /// Creates a new note, returns the identifier of the newly created
    /// note. Never fails: capacity enforcement guarantees room.
    pub fn create_note(&mut self, title: &str, content: &str, ttl: &str) -> (r: Result<
        String,
        NordNotesError,
    >)
        ensures
            old(self).inv() ==> final(self).inv(),
            final(self)@.users == old(self)@.users,
            exists|now: i64|
                #![trigger crate::utils::spec_expiration(ttl@, now)]
                in_timestamp_range(now as int) && (r matches Ok(id) && id@.len() == 36
                    && final(self)@.notes == spec_add_note(
                    old(self)@.notes,
                    spec_new_note(title@, content@, ttl@, now, id@),
                )),
    {
        let now = now_unix_seconds();
        let r = self.create_note_at(title, content, ttl, now);
        proof {
            assert(r matches Ok(id) && id@.len() == 36 && final(self)@.notes == spec_add_note(
                old(self)@.notes,
                spec_new_note(title@, content@, ttl@, now, id@),
            ));
        }
        r
    }

    /// Returns the notes visible at instant `now`, in insertion order.
    pub fn get_notes_at(&self, now: i64) -> (r: Vec<NoteEntity>)
        ensures
            r.deep_view() == spec_visible_notes(self@.notes, now),
    {
        self.notes_repository.list_at(now)
    }

    /// Returns a list of the notes that have not expired yet.
    pub fn get_notes(&self) -> (r: Result<Vec<NoteEntity>, NordNotesError>)
        ensures
            exists|now: i64|
                in_timestamp_range(now as int) && (r matches Ok(v) && v.deep_view()
                    == #[trigger] spec_visible_notes(self@.notes, now)),
    {
        let now = now_unix_seconds();
        let v = self.get_notes_at(now);
        proof {
            assert(in_timestamp_range(now as int) && v.deep_view() == spec_visible_notes(
                self@.notes,
                now,
            ));
        }
        Ok(v)
    }

    /// Returns the note with the given identifier where it is visible at
    /// instant `now`; an expired note is as absent as a missing one.
    pub fn get_note_at(&self, id: &str, now: i64) -> (r: Result<NoteEntity, NordNotesError>)
        ensures
            r matches Ok(n) ==> spec_find_note(self@.notes, id@, now) == Some(n@),
            r is Err <==> spec_find_note(self@.notes, id@, now) is None,
            r matches Err(e) ==> e@ == "note not found, id = "@ + id@,
    {
        self.notes_repository.find_at(id, now)
    }

    /// Returns a note with the specified identifier.
    pub fn get_note(&self, id: &str) -> (r: Result<NoteEntity, NordNotesError>)
        ensures
            exists|now: i64|
                in_timestamp_range(now as int) && (match r {
                    Ok(n) => #[trigger] spec_find_note(self@.notes, id@, now) == Some(n@),
                    Err(_) => spec_find_note(self@.notes, id@, now) is None,
                }),
            r matches Err(e) ==> e@ == "note not found, id = "@ + id@,
    {
        let now = now_unix_seconds();
        let r = self.get_note_at(id, now);
        proof {
            match &r {
                Ok(n) => assert(spec_find_note(self@.notes, id@, now) == Some(n@)),
                Err(_) => assert(spec_find_note(self@.notes, id@, now) is None),
            }
        }
        r
    }

    /// Deletes all notes, expired or not; the user records stay.
    pub fn delete_notes(&mut self) -> (r: Result<(), NordNotesError>)
        ensures
            final(self)@ == spec_delete_all(old(self)@),
            final(self).inv(),
            r is Ok,
    {
        let r = self.notes_repository.delete_all();
        proof {
            assert(final(self)@ =~= spec_delete_all(old(self)@));
        }
        r
    }

    /// Generates a new token for a user when login and password are
    /// correct: the first matching user record gets a fresh random token,
    /// and that token is returned. Where no record matches, nothing changes
    /// and no token is issued.
    pub fn get_token(&mut self, login: &str, password: &str) -> (r: Option<String>)
        ensures
            spec_first_user(old(self)@.users, login@, password@) is None ==> r is None
                && final(self)@ == old(self)@,
            spec_first_user(old(self)@.users, login@, password@) matches Some(j) ==> (r matches Some(t)
                && t@.len() == 36 && final(self)@.notes == old(self)@.notes && final(self)@.users
                == old(self)@.users.update(
                j,
                UserView { token: Some(t@), ..old(self)@.users[j] },
            )),
            spec_first_user(old(self)@.users, login@, password@) is Some ==> (r matches Some(t)
                && spec_token_valid(final(self)@.users, t@)),
    {
        let token = uuid();
        let login_s = String::from_str(login);
        let password_s = String::from_str(password);
        let mut j: usize = 0;
        while j < self.users.len()
            invariant
                j <= self.users.len(),
                self.users@ == old(self).users@,
                self.notes_repository == old(self).notes_repository,
                token@.len() == 36,
                login_s@ == login@,
                password_s@ == password@,
                forall|k: int|
                    0 <= k < j ==> !spec_user_matches(
                        #[trigger] old(self)@.users[k],
                        login@,
                        password@,
                    ),
            decreases self.users.len() - j,
        {
            let user = &self.users[j];
            if user.login == login_s && user.password == password_s {
                proof {
                    assert(spec_user_matches(old(self)@.users[j as int], login@, password@));
                    lemma_first_user_from_index(old(self)@.users, login@, password@, j as int);
                }
                let mut updated = self.users[j].clone();
                updated.token = Some(token.clone());
                self.users[j] = updated;
                proof {
                    assert(self@.users =~= old(self)@.users.update(
                        j as int,
                        UserView { token: Some(token@), ..old(self)@.users[j as int] },
                    ));
                    lemma_issued_token_validates(old(self)@.users, j as int, token@);
                    assert(self@ =~= StorageView {
                        users: self@.users,
                        ..old(self)@
                    });
                }
                return Some(token);
            }
            j += 1;
        }
        proof {
            lemma_no_matching_credentials_no_token(old(self)@.users, login@, password@);
            assert(self@ =~= old(self)@);
        }
        None
    }

    /// Checks if the token exists for any user.
    pub fn check_token(&self, token: &str) -> (r: bool)
        ensures
            r == spec_token_valid(self@.users, token@),
    {
        let token_s = String::from_str(token);
        let mut i: usize = 0;
        while i < self.users.len()
            invariant
                i <= self.users.len(),
                token_s@ == token@,
                forall|k: int| 0 <= k < i ==> (#[trigger] self@.users[k]).token != Some(token@),
            decreases self.users.len() - i,
        {
            let user = &self.users[i];
            match &user.token {
                Some(t) => {
                    if *t == token_s {
                        proof {
                            assert(self@.users[i as int].token == Some(token@));
                        }
                        return true;
                    }
                },
                None => {},
            }
            i += 1;
        }
        false
    }
}

} // verus!
