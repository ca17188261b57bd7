//! Notes and the ordered collection that holds them.

use vstd::prelude::*;
use vstd::string::StringExecFns;
use crate::collection::{
    contains_id, index_of_id, insert_sorted, insertion_point, lemma_add_keeps_order,
    lemma_index_of_id, lemma_insertion_point_is, lemma_merge, lemma_sort_desc_is_sorted,
    lemma_sort_desc_keeps, merge, sort_desc, sorted_desc,
};
use crate::timestamp::Timestamp;

verus! {

/// A single note.
#[derive(Debug, PartialEq, Eq)]
pub struct Note {
    pub id: u64,
    pub title: String,
    pub content: String,
    pub created_at: Timestamp,
    pub updated_at: Timestamp,
}

/// The mathematical content of a note.
pub struct NoteView {
    pub id: u64,
    pub title: Seq<char>,
    pub content: Seq<char>,
    pub created_at: Timestamp,
    pub updated_at: Timestamp,
}

impl NoteView {
    /// Both timestamps are valid.
    pub open spec fn valid(self) -> bool {
        self.created_at.valid() && self.updated_at.valid()
    }

    /// The note was not touched before it was created.
    pub open spec fn consistent(self) -> bool {
        self.updated_at.is_at_or_after(self.created_at)
    }
}

impl View for Note {
    type V = NoteView;

    open spec fn view(&self) -> NoteView {
        NoteView {
            id: self.id,
            title: self.title@,
            content: self.content@,
            created_at: self.created_at,
            updated_at: self.updated_at,
        }
    }
}

/// The id of a note created at `now`: the milliseconds since the epoch, as
/// an unsigned 64-bit number.
pub open spec fn spec_note_id(now: Timestamp) -> u64 {
    now.epoch_millis() as u64
}

/// The note that creation at `now` gives.
pub open spec fn spec_created(title: Seq<char>, content: Seq<char>, now: Timestamp) -> NoteView {
    NoteView { id: spec_note_id(now), title, content, created_at: now, updated_at: now }
}

/// The plain text of a note: its title and its content under fixed headings.
pub open spec fn spec_note_text(title: Seq<char>, content: Seq<char>) -> Seq<char> {
    "Title: "@ + title + "\n\nContent:\n"@ + content
}

impl Clone for Note {
    fn clone(&self) -> (copy: Note)
        ensures
            copy == *self,
    {
        Note {
            id: self.id,
            title: self.title.clone(),
            content: self.content.clone(),
            created_at: self.created_at,
            updated_at: self.updated_at,
        }
    }
}

impl Note {
    /// Creates a note at the current time of the system clock.
    pub fn new(title: String, content: String) -> (note: Note)
        ensures
            note@ == spec_created(title@, content@, note.created_at),
            note@.valid(),
            note@.consistent(),
            note.id == note.created_at.epoch_millis(),
    {
        Note::created(title, content, Timestamp::now())
    }

    /// Creates a note at the given time. Its id is the time in milliseconds.
    pub fn created(title: String, content: String, now: Timestamp) -> (note: Note)
        requires
            now.valid(),
        ensures
            note@ == spec_created(title@, content@, now),
            note@.valid(),
            note@.consistent(),
            now.secs >= 0 ==> note.id == now.epoch_millis(),
    {
        let millis = now.millis();
        let id = #[verifier::truncate] (millis as u64);
        Note { id, title, content, created_at: now, updated_at: now }
    }

    /// Formats title and content as plain text.
    pub fn to_text(&self) -> (text: String)
        ensures
            text@ == spec_note_text(self@.title, self@.content),
    {
        let mut text = "Title: ".to_owned();
        text.append(self.title.as_str());
        text.append("\n\nContent:\n");
        text.append(self.content.as_str());
        text
    }
}

/// The views of a sequence of notes, in order.
pub open spec fn notes_view(notes: Seq<Note>) -> Seq<NoteView> {
    notes.map_values(|note: Note| note@)
}

/// Every note of the sequence has valid timestamps.
pub open spec fn all_valid(s: Seq<NoteView>) -> bool {
    forall|i: int| 0 <= i < s.len() ==> (#[trigger] s[i]).valid()
}

/// No note of the sequence was touched before it was created.
pub open spec fn all_consistent(s: Seq<NoteView>) -> bool {
    forall|i: int| 0 <= i < s.len() ==> (#[trigger] s[i]).consistent()
}

/// The sequence without the notes that carry the given id.
pub open spec fn spec_delete(s: Seq<NoteView>, id: u64) -> Seq<NoteView> {
    s.filter(|note: NoteView| note.id != id)
}

/// The note that an update at `now` makes of a note: new title and content,
/// `updated_at` refreshed, id and creation time as they were.
pub open spec fn spec_touched(note: NoteView, title: Seq<char>, content: Seq<char>, now: Timestamp)
    -> NoteView {
    NoteView { id: note.id, title, content, created_at: note.created_at, updated_at: now }
}

/// The sequence after an update at `now` of the first note with the given
/// id: that note is rewritten and the sequence sorted again. Without such a
/// note the sequence stays as it is.
pub open spec fn spec_update(
    s: Seq<NoteView>,
    id: u64,
    title: Seq<char>,
    content: Seq<char>,
    now: Timestamp,
) -> Seq<NoteView> {
    let i = index_of_id(s, id);
    if i < s.len() {
        sort_desc(s.update(i, spec_touched(s[i], title, content, now)))
    } else {
        s
    }
}

/// The first note with the given id, if there is one.
pub open spec fn spec_find(s: Seq<NoteView>, id: u64) -> Option<NoteView> {
    let i = index_of_id(s, id);
    if i < s.len() {
        Some(s[i])
    } else {
        None
    }
}

/// The notes of a store, most recently touched first.
#[derive(Debug, PartialEq, Eq)]
pub struct NoteList {
    pub notes: Vec<Note>,
}

impl View for NoteList {
    type V = Seq<NoteView>;

    open spec fn view(&self) -> Seq<NoteView> {
        notes_view(self.notes@)
    }
}

/// Finds where a note touched at `t` belongs in a sorted vector of notes.
/// The search runs from the back, where a note that is older than all
/// others belongs.
fn find_insertion_point(notes: &Vec<Note>, t: &Timestamp) -> (p: usize)
    requires
        sorted_desc(notes_view(notes@)),
    ensures
        p == insertion_point(notes_view(notes@), *t),
        p <= notes@.len(),
{
    let mut p: usize = notes.len();
    while p > 0 && notes[p - 1].updated_at.before(t)
        invariant
            p <= notes@.len(),
            forall|j: int|
                p <= j < notes@.len() ==> (#[trigger] notes_view(notes@)[j]).updated_at.is_before(
                    *t,
                ),
        decreases p,
    {
        p -= 1;
    }
    proof {
        let s = notes_view(notes@);
        assert forall|j: int| 0 <= j < p implies (#[trigger] s[j]).updated_at.is_at_or_after(
            *t,
        ) by {
            assert(s[p - 1].updated_at.is_at_or_after(*t));
            if j < p - 1 {
                assert(s[j].updated_at.is_at_or_after(s[p - 1].updated_at));
            }
        }
        lemma_insertion_point_is(s, *t, p as int);
    }
    p
}

/// The notes in reverse order, so that `pop` hands them out front to back.
fn reversed(notes: Vec<Note>) -> (back: Vec<Note>)
    ensures
        back@.len() == notes@.len(),
        forall|j: int| 0 <= j < back@.len() ==> back@[j] == notes@[notes@.len() - 1 - j],
{
    let mut rest = notes;
    let mut back: Vec<Note> = Vec::new();
    while rest.len() > 0
        invariant
            rest@.len() + back@.len() == notes@.len(),
            forall|j: int| 0 <= j < rest@.len() ==> rest@[j] == notes@[j],
            forall|j: int| 0 <= j < back@.len() ==> back@[j] == notes@[notes@.len() - 1 - j],
        decreases rest@.len(),
    {
        let note = rest.pop().unwrap();
        back.push(note);
    }
    back
}

/// Sorts notes by `updated_at`, descending and stable.
fn sort_notes(notes: Vec<Note>) -> (sorted: Vec<Note>)
    ensures
        notes_view(sorted@) == sort_desc(notes_view(notes@)),
{
    let ghost source = notes_view(notes@);
    let mut rest = reversed(notes);
    let mut sorted: Vec<Note> = Vec::new();
    let ghost mut done: int = 0;
    proof {
        assert(source.subrange(0, 0) =~= Seq::<NoteView>::empty());
        lemma_sort_desc_is_sorted(source.subrange(0, 0));
    }
    while rest.len() > 0
        invariant
            0 <= done <= source.len(),
            rest@.len() == source.len() - done,
            forall|j: int| 0 <= j < rest@.len() ==> rest@[j]@ == source[source.len() - 1 - j],
            notes_view(sorted@) == sort_desc(source.subrange(0, done)),
            sorted_desc(notes_view(sorted@)),
        decreases rest@.len(),
    {
        let ghost before_sorted = notes_view(sorted@);
        let note = rest.pop().unwrap();
        let p = find_insertion_point(&sorted, &note.updated_at);
        sorted.insert(p, note);
        proof {
            assert(note@ == source[done]);
            let next = source.subrange(0, done + 1);
            assert(next.drop_last() =~= source.subrange(0, done));
            assert(next.last() == note@);
            assert(notes_view(sorted@) =~= before_sorted.insert(p as int, note@));
            lemma_sort_desc_is_sorted(next);
            done = done + 1;
        }
    }
    assert(source.subrange(0, done) =~= source);
    sorted
}

impl NoteList {
    /// An empty collection.
    pub fn new() -> (list: NoteList)
        ensures
            list@ == Seq::<NoteView>::empty(),
    {
        let list = NoteList { notes: Vec::new() };
        assert(list@ =~= Seq::<NoteView>::empty());
        list
    }

    /// Inserts a note and sorts the collection again. A note whose id is
    /// already present is inserted all the same.
    pub fn add_note(&mut self, note: Note)
        ensures
            final(self)@ == sort_desc(old(self)@.push(note@)),
            sorted_desc(final(self)@),
            final(self)@.len() == old(self)@.len() + 1,
            sorted_desc(old(self)@) ==> final(self)@ == insert_sorted(old(self)@, note@),
            all_valid(old(self)@) && note@.valid() ==> all_valid(final(self)@),
            all_consistent(old(self)@) && note@.consistent() ==> all_consistent(final(self)@),
    {
        let mut notes: Vec<Note> = Vec::new();
        core::mem::swap(&mut notes, &mut self.notes);
        notes.push(note);
        assert(notes_view(notes@) =~= old(self)@.push(note@));
        self.notes = sort_notes(notes);
        proof {
            lemma_add_keeps_order(old(self)@, note@);
            if all_valid(old(self)@) && note@.valid() {
                lemma_sort_desc_keeps(old(self)@.push(note@), |n: NoteView| n.valid());
            }
            if all_consistent(old(self)@) && note@.consistent() {
                lemma_sort_desc_keeps(old(self)@.push(note@), |n: NoteView| n.consistent());
            }
        }
    }

    /// Adds every note of another collection, one by one in their order.
    /// Nothing is left out: a note whose id is already present is added all
    /// the same.
    pub fn merge_from(&mut self, incoming: NoteList)
        ensures
            final(self)@ == merge(old(self)@, incoming@),
            final(self)@.len() == old(self)@.len() + incoming@.len(),
            incoming@.len() > 0 ==> sorted_desc(final(self)@),
            all_valid(old(self)@) && all_valid(incoming@) ==> all_valid(final(self)@),
    {
        let ghost all = incoming@;
        let mut rest = reversed(incoming.notes);
        let ghost mut done: int = 0;
        assert(all.subrange(0, 0) =~= Seq::<NoteView>::empty());
        while rest.len() > 0
            invariant
                0 <= done <= all.len(),
                rest@.len() == all.len() - done,
                forall|j: int| 0 <= j < rest@.len() ==> rest@[j]@ == all[all.len() - 1 - j],
                self@ == merge(old(self)@, all.subrange(0, done)),
                all_valid(old(self)@) && all_valid(all) ==> all_valid(self@),
            decreases rest@.len(),
        {
            let note = rest.pop().unwrap();
            proof {
                assert(note@ == all[done]);
                let next = all.subrange(0, done + 1);
                assert(next.drop_last() =~= all.subrange(0, done));
                assert(next.last() == note@);
            }
            self.add_note(note);
            proof {
                done = done + 1;
            }
        }
        proof {
            assert(all.subrange(0, done) =~= all);
            lemma_merge(old(self)@, all);
        }
    }

    /// Removes every note with the given id. Says whether any was there.
    pub fn delete_note(&mut self, id: u64) -> (removed: bool)
        ensures
            final(self)@ == spec_delete(old(self)@, id),
            removed == contains_id(old(self)@, id),
            removed == (final(self)@.len() < old(self)@.len()),
            all_valid(old(self)@) ==> all_valid(final(self)@),
            all_consistent(old(self)@) ==> all_consistent(final(self)@),
            sorted_desc(old(self)@) ==> sorted_desc(final(self)@),
    {
        let ghost source = self@;
        let ghost keep = |note: NoteView| note.id != id;
        let mut taken: Vec<Note> = Vec::new();
        core::mem::swap(&mut taken, &mut self.notes);
        let mut rest = reversed(taken);
        let mut kept: Vec<Note> = Vec::new();
        let mut removed = false;
        let ghost mut done: int = 0;
        let ghost mut origin: Seq<int> = Seq::empty();
        proof {
            reveal(Seq::filter);
            assert(source.subrange(0, 0) =~= Seq::<NoteView>::empty());
        }
        while rest.len() > 0
            invariant
                0 <= done <= source.len(),
                rest@.len() == source.len() - done,
                keep == |note: NoteView| note.id != id,
                forall|j: int| 0 <= j < rest@.len() ==> rest@[j]@ == source[source.len() - 1 - j],
                notes_view(kept@) == source.subrange(0, done).filter(keep),
                removed == contains_id(source.subrange(0, done), id),
                removed == (kept@.len() < done),
                kept@.len() <= done,
                origin.len() == kept@.len(),
                forall|k: int|
                    0 <= k < origin.len() ==> 0 <= #[trigger] origin[k] < done && notes_view(
                        kept@,
                    )[k] == source[origin[k]],
                forall|k: int, l: int|
                    0 <= k < l < origin.len() ==> #[trigger] origin[k] < #[trigger] origin[l],
            decreases rest@.len(),
        {
            let ghost before_kept = notes_view(kept@);
            let note = rest.pop().unwrap();
            proof {
                reveal(Seq::filter);
                let seen = source.subrange(0, done);
                let next = source.subrange(0, done + 1);
                assert(note@ == source[done]);
                assert(next.drop_last() =~= seen);
                assert(next.last() == note@);
                if contains_id(seen, id) {
                    let i = choose|i: int| 0 <= i < seen.len() && (#[trigger] seen[i]).id == id;
                    assert(next[i] == seen[i]);
                }
                if contains_id(next, id) && note.id != id {
                    let i = choose|i: int| 0 <= i < next.len() && (#[trigger] next[i]).id == id;
                    assert(seen[i] == next[i]);
                }
                if note.id == id {
                    assert(next[done].id == id);
                }
            }
            if note.id != id {
                kept.push(note);
                proof {
                    assert(notes_view(kept@) =~= before_kept.push(note@));
                    origin = origin.push(done);
                }
            } else {
                removed = true;
            }
            proof {
                done = done + 1;
            }
        }
        assert(source.subrange(0, done) =~= source);
        self.notes = kept;
        proof {
            lemma_subsequence_keeps(source, self@, origin);
        }
        removed
    }

    /// Rewrites the first note with the given id at the given time and
    /// sorts the collection again. Returns `false`, and changes nothing,
    /// when no note has the id.
    pub fn update_note_at(
        &mut self,
        id: u64,
        title: String,
        content: String,
        now: Timestamp,
    ) -> (updated: bool)
        ensures
            final(self)@ == spec_update(old(self)@, id, title@, content@, now),
            updated == contains_id(old(self)@, id),
            updated ==> sorted_desc(final(self)@),
            final(self)@.len() == old(self)@.len(),
            all_valid(old(self)@) && now.valid() ==> all_valid(final(self)@),
            all_consistent(old(self)@) && (spec_find(old(self)@, id) is Some
                ==> now.is_at_or_after(spec_find(old(self)@, id)->Some_0.created_at))
                ==> all_consistent(final(self)@),
    {
        let i = self.position(id);
        proof {
            lemma_index_of_id(self@, id);
        }
        if i < self.notes.len() {
            let ghost before = self@;
            let touched = Note {
                id: self.notes[i].id,
                title,
                content,
                created_at: self.notes[i].created_at,
                updated_at: now,
            };
            let mut notes: Vec<Note> = Vec::new();
            core::mem::swap(&mut notes, &mut self.notes);
            notes.remove(i);
            notes.insert(i, touched);
            assert(notes_view(notes@) =~= before.update(
                i as int,
                spec_touched(before[i as int], title@, content@, now),
            ));
            self.notes = sort_notes(notes);
            proof {
                let rewritten = before.update(
                    i as int,
                    spec_touched(before[i as int], title@, content@, now),
                );
                lemma_sort_desc_is_sorted(rewritten);
                if all_valid(before) && now.valid() {
                    assert(before[i as int].valid());
                    lemma_sort_desc_keeps(rewritten, |n: NoteView| n.valid());
                }
                if all_consistent(before) && now.is_at_or_after(before[i as int].created_at) {
                    lemma_sort_desc_keeps(rewritten, |n: NoteView| n.consistent());
                }
            }
            true
        } else {
            false
        }
    }

    /// Rewrites the first note with the given id at the current time of the
    /// system clock and sorts the collection again. Returns `false`, and
    /// changes nothing, when no note has the id.
    pub fn update_note(&mut self, id: u64, title: String, content: String) -> (updated: bool)
        ensures
            updated == contains_id(old(self)@, id),
            exists|now: Timestamp|
                now.valid() && #[trigger] spec_update(old(self)@, id, title@, content@, now)
                    == final(self)@,
            updated ==> sorted_desc(final(self)@),
            final(self)@.len() == old(self)@.len(),
            all_valid(old(self)@) ==> all_valid(final(self)@),
    {
        let now = Timestamp::now();
        self.update_note_at(id, title, content, now)
    }

    /// The index of the first note with the given id, or the number of
    /// notes when none has it.
    pub fn position(&self, id: u64) -> (i: usize)
        ensures
            i == index_of_id(self@, id),
            i <= self.notes@.len(),
    {
        let mut i: usize = 0;
        while i < self.notes.len() && self.notes[i].id != id
            invariant
                i <= self.notes@.len(),
                forall|j: int| 0 <= j < i ==> (#[trigger] self@[j]).id != id,
            decreases self.notes@.len() - i,
        {
            i += 1;
        }
        proof {
            lemma_index_is(self@, id, i as int);
        }
        i
    }

    /// The first note with the given id.
    pub fn find(&self, id: u64) -> (found: Option<&Note>)
        ensures
            found matches Some(note) ==> spec_find(self@, id) == Some(note@),
            found is None ==> spec_find(self@, id) is None,
            found is Some <==> contains_id(self@, id),
    {
        let i = self.position(id);
        proof {
            lemma_index_of_id(self@, id);
        }
        if i < self.notes.len() {
            Some(&self.notes[i])
        } else {
            None
        }
    }
}

/// An index with no note of the id in front of it and such a note at it (or
/// the end of the sequence) is the index of the id.
proof fn lemma_index_is(s: Seq<NoteView>, id: u64, p: int)
    requires
        0 <= p <= s.len(),
        forall|j: int| 0 <= j < p ==> (#[trigger] s[j]).id != id,
        p < s.len() ==> s[p].id == id,
    ensures
        index_of_id(s, id) == p,
    decreases s.len(),
{
    if s.len() == 0 {
    } else if p == 0 {
    } else {
        let rest = s.drop_first();
        assert(s[0].id != id);
        assert forall|j: int| 0 <= j < p - 1 implies (#[trigger] rest[j]).id != id by {
            assert(rest[j] == s[j + 1]);
        }
        if p - 1 < rest.len() {
            assert(rest[p - 1] == s[p]);
        }
        lemma_index_is(rest, id, p - 1);
    }
}

/// A sequence picked out of another in rising positions keeps what holds
/// of all its notes, and its order.
proof fn lemma_subsequence_keeps(source: Seq<NoteView>, picked: Seq<NoteView>, origin: Seq<int>)
    requires
        origin.len() == picked.len(),
        forall|k: int|
            0 <= k < origin.len() ==> 0 <= #[trigger] origin[k] < source.len() && picked[k]
                == source[origin[k]],
        forall|k: int, l: int|
            0 <= k < l < origin.len() ==> #[trigger] origin[k] < #[trigger] origin[l],
    ensures
        all_valid(source) ==> all_valid(picked),
        all_consistent(source) ==> all_consistent(picked),
        sorted_desc(source) ==> sorted_desc(picked),
{
    if all_valid(source) {
        assert forall|i: int| 0 <= i < picked.len() implies (#[trigger] picked[i]).valid() by {
            assert(picked[i] == source[origin[i]]);
        }
    }
    if all_consistent(source) {
        assert forall|i: int| 0 <= i < picked.len() implies (#[trigger] picked[i]).consistent() by {
            assert(picked[i] == source[origin[i]]);
        }
    }
    if sorted_desc(source) {
        assert forall|i: int, j: int| 0 <= i < j < picked.len() implies (
        #[trigger] picked[i]).updated_at.is_at_or_after((#[trigger] picked[j]).updated_at) by {
            assert(picked[i] == source[origin[i]]);
            assert(picked[j] == source[origin[j]]);
            assert(origin[i] < origin[j]);
        }
    }
}

} // verus!
