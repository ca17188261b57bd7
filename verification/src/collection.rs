//! The order of the note collection: most recently touched first.
//!
//! Sorting is stable: notes with equal `updated_at` keep the order in which
//! they stood before. The order is defined here on sequences of note views;
//! the collection itself is in `data`.

use vstd::prelude::*;
use crate::data::NoteView;
use crate::timestamp::Timestamp;

verus! {

/// Every note was touched no earlier than the notes behind it.
pub open spec fn sorted_desc(s: Seq<NoteView>) -> bool {
    forall|i: int, j: int|
        0 <= i < j < s.len() ==> (#[trigger] s[i]).updated_at.is_at_or_after(
            (#[trigger] s[j]).updated_at,
        )
}

/// The index of the first note that was touched strictly before `t`, or the
/// length of the sequence when there is none.
pub open spec fn insertion_point(s: Seq<NoteView>, t: Timestamp) -> int
    decreases s.len(),
{
    if s.len() == 0 {
        0
    } else if s[0].updated_at.is_before(t) {
        0
    } else {
        1 + insertion_point(s.drop_first(), t)
    }
}

/// Puts a note in front of the first note that is strictly older.
pub open spec fn insert_sorted(s: Seq<NoteView>, note: NoteView) -> Seq<NoteView> {
    s.insert(insertion_point(s, note.updated_at), note)
}

/// The stable sort by `updated_at`, descending.
pub open spec fn sort_desc(s: Seq<NoteView>) -> Seq<NoteView>
    decreases s.len(),
{
    if s.len() == 0 {
        Seq::empty()
    } else {
        insert_sorted(sort_desc(s.drop_last()), s.last())
    }
}

/// The index of the first note with the given id, or the length of the
/// sequence when no note has it.
pub open spec fn index_of_id(s: Seq<NoteView>, id: u64) -> int
    decreases s.len(),
{
    if s.len() == 0 {
        0
    } else if s[0].id == id {
        0
    } else {
        1 + index_of_id(s.drop_first(), id)
    }
}

/// Some note in the sequence has the given id.
pub open spec fn contains_id(s: Seq<NoteView>, id: u64) -> bool {
    exists|i: int| 0 <= i < s.len() && (#[trigger] s[i]).id == id
}

/// The insertion point lies in the sequence or at its end; nothing in front
/// of it is older than `t`, and the note at it, if any, is.
pub proof fn lemma_insertion_point(s: Seq<NoteView>, t: Timestamp)
    ensures
        0 <= insertion_point(s, t) <= s.len(),
        forall|j: int|
            0 <= j < insertion_point(s, t) ==> (#[trigger] s[j]).updated_at.is_at_or_after(t),
        insertion_point(s, t) < s.len() ==> s[insertion_point(s, t)].updated_at.is_before(t),
    decreases s.len(),
{
    if s.len() > 0 && !s[0].updated_at.is_before(t) {
        let rest = s.drop_first();
        lemma_insertion_point(rest, t);
        assert forall|j: int| 0 <= j < insertion_point(s, t) implies (
        #[trigger] s[j]).updated_at.is_at_or_after(t) by {
            if j > 0 {
                assert(s[j] == rest[j - 1]);
            }
        }
        if insertion_point(s, t) < s.len() {
            assert(s[insertion_point(s, t)] == rest[insertion_point(rest, t)]);
        }
    }
}

/// An index with nothing older in front of it and an older note at it (or
/// the end of the sequence) is the insertion point.
pub proof fn lemma_insertion_point_is(s: Seq<NoteView>, t: Timestamp, p: int)
    requires
        0 <= p <= s.len(),
        forall|j: int| 0 <= j < p ==> (#[trigger] s[j]).updated_at.is_at_or_after(t),
        p < s.len() ==> s[p].updated_at.is_before(t),
    ensures
        insertion_point(s, t) == p,
    decreases s.len(),
{
    if s.len() == 0 {
    } else if p == 0 {
    } else {
        let rest = s.drop_first();
        assert(s[0].updated_at.is_at_or_after(t));
        assert forall|j: int| 0 <= j < p - 1 implies (#[trigger] rest[j]).updated_at.is_at_or_after(
            t,
        ) by {
            assert(rest[j] == s[j + 1]);
        }
        if p - 1 < rest.len() {
            assert(rest[p - 1] == s[p]);
        }
        lemma_insertion_point_is(rest, t, p - 1);
    }
}

/// Inserting into a sorted sequence leaves it sorted.
pub proof fn lemma_insert_sorted_keeps_order(s: Seq<NoteView>, note: NoteView)
    requires
        sorted_desc(s),
    ensures
        sorted_desc(insert_sorted(s, note)),
        insert_sorted(s, note).len() == s.len() + 1,
{
    let p = insertion_point(s, note.updated_at);
    lemma_insertion_point(s, note.updated_at);
    let r = insert_sorted(s, note);
    assert forall|i: int, j: int| 0 <= i < j < r.len() implies (
    #[trigger] r[i]).updated_at.is_at_or_after((#[trigger] r[j]).updated_at) by {
        if j < p {
            assert(r[i] == s[i] && r[j] == s[j]);
        } else if j == p {
            assert(r[i] == s[i]);
        } else if i < p {
            assert(r[i] == s[i] && r[j] == s[j - 1]);
        } else if i == p {
            assert(r[j] == s[j - 1]);
            if p < j - 1 {
                assert(s[p].updated_at.is_at_or_after(s[j - 1].updated_at));
            }
        } else {
            assert(r[i] == s[i - 1] && r[j] == s[j - 1]);
        }
    }
}

/// Sorting gives a sorted sequence of the same length.
pub proof fn lemma_sort_desc_is_sorted(s: Seq<NoteView>)
    ensures
        sorted_desc(sort_desc(s)),
        sort_desc(s).len() == s.len(),
    decreases s.len(),
{
    if s.len() > 0 {
        lemma_sort_desc_is_sorted(s.drop_last());
        lemma_insert_sorted_keeps_order(sort_desc(s.drop_last()), s.last());
    }
}

/// Sorting neither loses nor invents a note: the sorted sequence holds each
/// note as often as the sequence it was sorted from.
pub proof fn lemma_sort_desc_permutes(s: Seq<NoteView>)
    ensures
        sort_desc(s).to_multiset() == s.to_multiset(),
    decreases s.len(),
{
    broadcast use vstd::seq_lib::group_to_multiset_ensures;

    if s.len() == 0 {
    } else {
        let front = s.drop_last();
        let sorted_front = sort_desc(front);
        lemma_sort_desc_permutes(front);
        lemma_insertion_point(sorted_front, s.last().updated_at);
        assert(s == front.push(s.last()));
        assert(sort_desc(s).to_multiset() =~= sorted_front.to_multiset().insert(s.last()));
        assert(s.to_multiset() =~= front.to_multiset().insert(s.last()));
    }
}

/// A sequence none of whose notes was touched at `t` has no notes touched at `t`.
proof fn lemma_none_touched_at(s: Seq<NoteView>, t: Timestamp)
    requires
        forall|i: int| 0 <= i < s.len() ==> (#[trigger] s[i]).updated_at != t,
    ensures
        s.filter(|note: NoteView| note.updated_at == t) == Seq::<NoteView>::empty(),
    decreases s.len(),
{
    reveal(Seq::filter);
    if s.len() > 0 {
        let front = s.drop_last();
        assert forall|i: int| 0 <= i < front.len() implies (#[trigger] front[i]).updated_at
            != t by {
            assert(front[i] == s[i]);
        }
        lemma_none_touched_at(front, t);
        assert(s.last() == s[s.len() - 1]);
    }
}

/// Sorting is stable: the notes touched at one and the same time stand in
/// the sorted sequence in the order in which they stood before.
pub proof fn lemma_sort_desc_is_stable(s: Seq<NoteView>, t: Timestamp)
    ensures
        sort_desc(s).filter(|note: NoteView| note.updated_at == t) == s.filter(
            |note: NoteView| note.updated_at == t,
        ),
    decreases s.len(),
{
    let at = |note: NoteView| note.updated_at == t;
    reveal_with_fuel(Seq::filter, 2);
    if s.len() > 0 {
        let front = s.drop_last();
        let x = s.last();
        let sorted_front = sort_desc(front);
        lemma_sort_desc_is_stable(front, t);
        lemma_sort_desc_is_sorted(front);
        lemma_insertion_point(sorted_front, x.updated_at);
        let p = insertion_point(sorted_front, x.updated_at);
        let left = sorted_front.subrange(0, p);
        let right = sorted_front.subrange(p, sorted_front.len() as int);
        assert(sorted_front =~= left + right);
        assert(sort_desc(s) =~= (left + seq![x]) + right);
        Seq::filter_distributes_over_add(left, right, at);
        Seq::filter_distributes_over_add(left + seq![x], right, at);
        Seq::filter_distributes_over_add(left, seq![x], at);
        assert(seq![x].drop_last() =~= Seq::<NoteView>::empty());
        assert(seq![x].last() == x);
        if at(x) {
            assert forall|i: int| 0 <= i < right.len() implies (#[trigger] right[i]).updated_at
                != t by {
                assert(right[i] == sorted_front[p + i]);
                if i > 0 {
                    assert(sorted_front[p].updated_at.is_at_or_after(
                        sorted_front[p + i].updated_at,
                    ));
                }
            }
            lemma_none_touched_at(right, t);
            assert(seq![x].filter(at) =~= seq![x]);
            assert(sort_desc(s).filter(at) =~= sorted_front.filter(at).push(x));
        } else {
            assert(seq![x].filter(at) =~= Seq::<NoteView>::empty());
            assert(sort_desc(s).filter(at) =~= sorted_front.filter(at));
        }
    }
}

/// A sorted sequence is its own sort.
pub proof fn lemma_sort_desc_of_sorted(s: Seq<NoteView>)
    requires
        sorted_desc(s),
    ensures
        sort_desc(s) == s,
    decreases s.len(),
{
    if s.len() > 0 {
        let front = s.drop_last();
        assert forall|i: int, j: int| 0 <= i < j < front.len() implies (
        #[trigger] front[i]).updated_at.is_at_or_after((#[trigger] front[j]).updated_at) by {
            assert(front[i] == s[i] && front[j] == s[j]);
        }
        lemma_sort_desc_of_sorted(front);
        assert forall|j: int| 0 <= j < front.len() implies (
        #[trigger] front[j]).updated_at.is_at_or_after(s.last().updated_at) by {
            assert(front[j] == s[j]);
            assert(s.last() == s[s.len() - 1]);
        }
        lemma_insertion_point_is(front, s.last().updated_at, front.len() as int);
        assert(front.insert(front.len() as int, s.last()) =~= s);
    }
}

/// After any run of insertions and sorts the collection is in order: a
/// sort's result is sorted whatever went in.
pub proof fn lemma_add_keeps_order(s: Seq<NoteView>, note: NoteView)
    ensures
        sorted_desc(sort_desc(s.push(note))),
        sort_desc(s.push(note)).len() == s.len() + 1,
        sorted_desc(s) ==> sort_desc(s.push(note)) == insert_sorted(s, note),
{
    lemma_sort_desc_is_sorted(s.push(note));
    if sorted_desc(s) {
        lemma_sort_desc_of_sorted(s);
        assert(s.push(note).drop_last() =~= s);
    }
}

/// The index of an id lies in the sequence or at its end; the note at it,
/// if any, has the id, and no note in front of it has.
pub proof fn lemma_index_of_id(s: Seq<NoteView>, id: u64)
    ensures
        0 <= index_of_id(s, id) <= s.len(),
        forall|j: int| 0 <= j < index_of_id(s, id) ==> (#[trigger] s[j]).id != id,
        index_of_id(s, id) < s.len() ==> s[index_of_id(s, id)].id == id,
        index_of_id(s, id) < s.len() <==> contains_id(s, id),
    decreases s.len(),
{
    if s.len() > 0 && s[0].id != id {
        let rest = s.drop_first();
        lemma_index_of_id(rest, id);
        assert forall|j: int| 0 <= j < index_of_id(s, id) implies (#[trigger] s[j]).id != id by {
            if j > 0 {
                assert(s[j] == rest[j - 1]);
            }
        }
        if index_of_id(s, id) < s.len() {
            assert(s[index_of_id(s, id)] == rest[index_of_id(rest, id)]);
        }
        if contains_id(s, id) {
            let i = choose|i: int| 0 <= i < s.len() && (#[trigger] s[i]).id == id;
            assert(rest[i - 1] == s[i]);
        }
    }
}

/// The sequence after the notes of `incoming` were added one by one, in
/// their order, each addition followed by a sort. Nothing is dropped: a
/// note whose id is already present is added all the same.
pub open spec fn merge(s: Seq<NoteView>, incoming: Seq<NoteView>) -> Seq<NoteView>
    decreases incoming.len(),
{
    if incoming.len() == 0 {
        s
    } else {
        sort_desc(merge(s, incoming.drop_last()).push(incoming.last()))
    }
}

/// Merging keeps every note of both sides, as often as it occurs: the
/// result has as many notes as the two together, and is sorted as soon as
/// anything came in.
pub proof fn lemma_merge(s: Seq<NoteView>, incoming: Seq<NoteView>)
    ensures
        merge(s, incoming).len() == s.len() + incoming.len(),
        merge(s, incoming).to_multiset() == s.to_multiset().add(incoming.to_multiset()),
        incoming.len() > 0 ==> sorted_desc(merge(s, incoming)),
    decreases incoming.len(),
{
    broadcast use vstd::seq_lib::group_to_multiset_ensures;

    if incoming.len() == 0 {
        assert(incoming.to_multiset() =~= vstd::multiset::Multiset::<NoteView>::empty());
        assert(s.to_multiset().add(incoming.to_multiset()) =~= s.to_multiset());
    } else {
        let front = incoming.drop_last();
        let merged = merge(s, front);
        lemma_merge(s, front);
        lemma_sort_desc_is_sorted(merged.push(incoming.last()));
        lemma_sort_desc_permutes(merged.push(incoming.last()));
        assert(incoming == front.push(incoming.last()));
        assert(merged.push(incoming.last()).to_multiset() =~= merged.to_multiset().insert(
            incoming.last(),
        ));
        assert(incoming.to_multiset() =~= front.to_multiset().insert(incoming.last()));
        assert(merge(s, incoming).to_multiset() =~= s.to_multiset().add(incoming.to_multiset()));
    }
}

/// Whatever holds of every note of a sequence holds of every note of its sort.
pub proof fn lemma_sort_desc_keeps(s: Seq<NoteView>, holds: spec_fn(NoteView) -> bool)
    requires
        forall|i: int| 0 <= i < s.len() ==> holds(#[trigger] s[i]),
    ensures
        forall|i: int| 0 <= i < sort_desc(s).len() ==> holds(#[trigger] sort_desc(s)[i]),
    decreases s.len(),
{
    if s.len() > 0 {
        let front = s.drop_last();
        assert forall|i: int| 0 <= i < front.len() implies holds(#[trigger] front[i]) by {
            assert(front[i] == s[i]);
        }
        lemma_sort_desc_keeps(front, holds);
        let sorted_front = sort_desc(front);
        lemma_insertion_point(sorted_front, s.last().updated_at);
        let p = insertion_point(sorted_front, s.last().updated_at);
        assert(holds(s[s.len() - 1]));
        assert forall|i: int| 0 <= i < sort_desc(s).len() implies holds(
            #[trigger] sort_desc(s)[i],
        ) by {
            if i < p {
                assert(sort_desc(s)[i] == sorted_front[i]);
            } else if i > p {
                assert(sort_desc(s)[i] == sorted_front[i - 1]);
            }
        }
    }
}

} // verus!
