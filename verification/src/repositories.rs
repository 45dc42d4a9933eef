//! Repository for data manipulation on notes: a bounded in-memory collection
//! kept in insertion order, with first-in-first-out eviction at capacity and
//! lazy filtering of expired notes on reads.

use crate::entities::{spec_note_expired, NoteEntity, NoteView};
use crate::errors::{err_note_not_found, NordNotesError};
use crate::utils::{in_timestamp_range, now_unix_seconds};
use vstd::prelude::*;
use vstd::string::*;

verus! {

/// Greatest number of notes the repository holds at once.
pub const NOTES_CAPACITY: usize = 20;

/// Whether a note is visible at instant `now`: held and not expired.
pub open spec fn spec_note_visible(n: NoteView, now: i64) -> bool {
    !spec_note_expired(n, now)
}

/// The notes visible at instant `now`, in insertion order.
pub open spec fn spec_visible_notes(notes: Seq<NoteView>, now: i64) -> Seq<NoteView> {
    notes.filter(|n: NoteView| spec_note_visible(n, now))
}

/// What adding a note to held notes yields: the note appended, after the
/// oldest-inserted note is evicted where the collection is at capacity.
/// Eviction goes by insertion order alone, never by expiry.
pub open spec fn spec_add_note(notes: Seq<NoteView>, n: NoteView) -> Seq<NoteView> {
    if notes.len() < NOTES_CAPACITY {
        notes.push(n)
    } else {
        notes.subrange(1, notes.len() as int).push(n)
    }
}

/// The first note whose identifier is `id` and which is visible at `now`,
/// or `None` where there is no such note. An expired note is found no more
/// than an absent one.
pub open spec fn spec_find_note(notes: Seq<NoteView>, id: Seq<char>, now: i64) -> Option<NoteView>
    decreases notes.len(),
{
    if notes.len() == 0 {
        None
    } else if notes[0].note_id == id && spec_note_visible(notes[0], now) {
        Some(notes[0])
    } else {
        spec_find_note(notes.subrange(1, notes.len() as int), id, now)
    }
}

/// A find yields a note exactly where some held note carries the identifier
/// and is visible; in particular a note that exists but has expired is not
/// found.
pub proof fn lemma_find_note_found_iff_visible(notes: Seq<NoteView>, id: Seq<char>, now: i64)
    ensures
        spec_find_note(notes, id, now) is Some <==> exists|i: int|
            0 <= i < notes.len() && (#[trigger] notes[i]).note_id == id && spec_note_visible(
                notes[i],
                now,
            ),
        spec_find_note(notes, id, now) matches Some(n) ==> n.note_id == id && spec_note_visible(
            n,
            now,
        ),
    decreases notes.len(),
{
    if notes.len() > 0 {
        let tail = notes.subrange(1, notes.len() as int);
        lemma_find_note_found_iff_visible(tail, id, now);
        if notes[0].note_id == id && spec_note_visible(notes[0], now) {
        } else {
            if spec_find_note(notes, id, now) is Some {
                let i = choose|i: int|
                    0 <= i < tail.len() && (#[trigger] tail[i]).note_id == id && spec_note_visible(
                        tail[i],
                        now,
                    );
                assert(notes[i + 1] == tail[i]);
            }
            if exists|i: int|
                0 <= i < notes.len() && (#[trigger] notes[i]).note_id == id && spec_note_visible(
                    notes[i],
                    now,
                ) {
                let i = choose|i: int|
                    0 <= i < notes.len() && (#[trigger] notes[i]).note_id == id
                        && spec_note_visible(notes[i], now);
                assert(tail[i - 1] == notes[i]);
            }
        }
    }
}

/// Adding a note to a store at capacity keeps the count at the capacity:
/// the oldest-inserted note leaves, every other note moves up one place,
/// and the new note stands last.
pub proof fn lemma_add_at_capacity_evicts_oldest(notes: Seq<NoteView>, n: NoteView)
    requires
        notes.len() == NOTES_CAPACITY,
    ensures
        spec_add_note(notes, n).len() == NOTES_CAPACITY,
        spec_add_note(notes, n).last() == n,
        forall|k: int| 0 <= k < NOTES_CAPACITY - 1 ==> spec_add_note(notes, n)[k] == notes[k + 1],
{
}

/// A note that has expired at instant `now` is excluded from the notes
/// listed at `now`.
pub proof fn lemma_expired_note_not_listed(notes: Seq<NoteView>, n: NoteView, now: i64)
    requires
        spec_note_expired(n, now),
    ensures
        !spec_visible_notes(notes, now).contains(n),
    decreases notes.len(),
{
    reveal(Seq::filter);
    if notes.len() == 0 {
    } else {
        lemma_expired_note_not_listed(notes.drop_last(), n, now);
        let whole = spec_visible_notes(notes, now);
        let front = spec_visible_notes(notes.drop_last(), now);
        if spec_note_visible(notes.last(), now) {
            assert(whole == front.push(notes.last()));
            assert(notes.last() != n);
            if whole.contains(n) {
                let k = choose|k: int| 0 <= k < whole.len() && whole[k] == n;
                if k < front.len() {
                    assert(front[k] == n);
                } else {
                    assert(whole[k] == notes.last());
                }
            }
        } else {
            assert(whole == front);
        }
    }
}

/// Repository for data manipulation on notes.
pub struct NotesRepository {
    notes: Vec<NoteEntity>,
}

impl View for NotesRepository {
    type V = Seq<NoteView>;

    closed spec fn view(&self) -> Seq<NoteView> {
        self.notes.deep_view()
    }
}

impl NotesRepository {
    /// The capacity bound every operation preserves.
    pub open spec fn inv(&self) -> bool {
        self@.len() <= NOTES_CAPACITY
    }

    /// Creates an empty repository.
    pub fn new() -> (r: NotesRepository)
        ensures
            r@ == Seq::<NoteView>::empty(),
            r.inv(),
    {
        let r = NotesRepository { notes: Vec::new() };
        proof {
            assert(r@ =~= Seq::<NoteView>::empty());
        }
        r
    }

    /// Deletes all notes, expired or not.
    pub fn delete_all(&mut self) -> (r: Result<(), NordNotesError>)
        ensures
            final(self)@ == Seq::<NoteView>::empty(),
            final(self).inv(),
            r is Ok,
    {
        self.notes.clear();
        proof {
            assert(self@ =~= Seq::<NoteView>::empty());
        }
        Ok(())
    }

    /// Adds a new note, evicting the oldest-inserted note first where the
    /// repository is at capacity, and returns the note's identifier.
    pub fn add(&mut self, note: NoteEntity) -> (r: Result<String, NordNotesError>)
        ensures
            final(self)@ == spec_add_note(old(self)@, note@),
            old(self).inv() ==> final(self).inv(),
            r matches Ok(id) && id@ == note@.note_id,
    {
        let note_id = note.note_id.clone();
        if self.notes.len() >= NOTES_CAPACITY {
            self.notes.remove(0);
        }
        self.notes.push(note);
        proof {
            assert(self@ =~= spec_add_note(old(self)@, note@));
        }
        Ok(note_id)
    }

    /// Lists the notes that are visible at instant `now`, in insertion
    /// order. Expired notes are skipped, not removed.
    pub fn list_at(&self, now: i64) -> (r: Vec<NoteEntity>)
        ensures
            r.deep_view() == spec_visible_notes(self@, now),
    {
        let mut result: Vec<NoteEntity> = Vec::new();
        let mut i: usize = 0;
        proof {
            assert(result.deep_view() =~= spec_visible_notes(self@.subrange(0, 0), now));
        }
        while i < self.notes.len()
            invariant
                i <= self.notes.len(),
                self@ == self.notes.deep_view(),
                result.deep_view() == spec_visible_notes(self@.subrange(0, i as int), now),
            decreases self.notes.len() - i,
        {
            let ghost pre_result = result.deep_view();
            let note = &self.notes[i];
            let visible = !note.has_expired_at(now);
            if visible {
                result.push(note.clone());
            }
            proof {
                let stepped = self@.subrange(0, i + 1);
                assert(stepped.drop_last() =~= self@.subrange(0, i as int));
                assert(stepped.last() == self@[i as int]);
                reveal(Seq::filter);
                if visible {
                    assert(result.deep_view() =~= pre_result.push(self@[i as int]));
                }
                assert(result.deep_view() =~= spec_visible_notes(stepped, now));
            }
            i += 1;
        }
        proof {
            assert(self@.subrange(0, self@.len() as int) =~= self@);
        }
        result
    }

    /// Lists all notes that have not expired yet, measured against the
    /// current UTC instant.
    pub fn list(&self) -> (r: Result<Vec<NoteEntity>, NordNotesError>)
        ensures
            exists|now: i64|
                in_timestamp_range(now as int) && (r matches Ok(v) && v.deep_view()
                    == #[trigger] spec_visible_notes(self@, now)),
    {
        let now = now_unix_seconds();
        let v = self.list_at(now);
        proof {
            assert(v.deep_view() == spec_visible_notes(self@, now));
        }
        Ok(v)
    }

    /// Returns the first note with the given identifier that is visible at
    /// instant `now`; a note that exists but has expired is reported absent.
    pub fn find_at(&self, note_id: &str, now: i64) -> (r: Result<NoteEntity, NordNotesError>)
        ensures
            r matches Ok(n) ==> spec_find_note(self@, note_id@, now) == Some(n@),
            r is Err <==> spec_find_note(self@, note_id@, now) is None,
            r matches Err(e) ==> e@ == "note not found, id = "@ + note_id@,
    {
        let id = String::from_str(note_id);
        let mut i: usize = 0;
        proof {
            assert(self@.subrange(0, self@.len() as int) =~= self@);
        }
        while i < self.notes.len()
            invariant
                i <= self.notes.len(),
                self@ == self.notes.deep_view(),
                id@ == note_id@,
                spec_find_note(self@, note_id@, now) == spec_find_note(
                    self@.subrange(i as int, self@.len() as int),
                    note_id@,
                    now,
                ),
            decreases self.notes.len() - i,
        {
            let ghost rest = self@.subrange(i as int, self@.len() as int);
            let note = &self.notes[i];
            proof {
                assert(rest[0] == self@[i as int]);
                assert(rest.subrange(1, rest.len() as int) =~= self@.subrange(
                    i + 1,
                    self@.len() as int,
                ));
            }
            if note.note_id == id && !note.has_expired_at(now) {
                return Ok(note.clone());
            }
            i += 1;
        }
        proof {
            assert(self@.subrange(self@.len() as int, self@.len() as int) =~= Seq::<
                NoteView,
            >::empty());
        }
        Err(err_note_not_found(note_id))
    }

    /// Searches for a note with the specified identifier, measured against
    /// the current UTC instant.
    pub fn find(&self, note_id: &str) -> (r: Result<NoteEntity, NordNotesError>)
        ensures
            exists|now: i64|
                in_timestamp_range(now as int) && (match r {
                    Ok(n) => #[trigger] spec_find_note(self@, note_id@, now) == Some(n@),
                    Err(_) => spec_find_note(self@, note_id@, now) is None,
                }),
            r matches Err(e) ==> e@ == "note not found, id = "@ + note_id@,
    {
        let now = now_unix_seconds();
        let r = self.find_at(note_id, now);
        proof {
            match &r {
                Ok(n) => assert(spec_find_note(self@, note_id@, now) == Some(n@)),
                Err(_) => assert(spec_find_note(self@, note_id@, now) is None),
            }
        }
        r
    }
}

} // verus!
