//! The serialized form of a note collection: the plaintext of a container.
//!
//! The bytes are those of `bincode` (fixed-width integers, little endian,
//! length-prefixed sequences and strings) over the notes in order, each
//! note as id, title, content, creation time and update time, the two
//! times in the text form that `chrono` gives a `DateTime<Utc>`.

use vstd::prelude::*;
use chrono::{DateTime, Utc};
use crate::data::{all_valid, notes_view, Note, NoteList, NoteView};
use crate::error::StoreError;
use crate::timestamp::Timestamp;

verus! {

/// The error kinds of `bincode`.
#[verifier::external_type_specification]
#[verifier::external_body]
pub struct ExBincodeErrorKind(bincode::ErrorKind);

/// The bytes that `bincode::serialize` gives for a sequence of notes.
pub uninterp spec fn bincode_encoding(notes: Seq<NoteView>) -> Seq<u8>;

/// The notes that `bincode::deserialize` reads from bytes, or nothing when
/// it rejects them.
pub uninterp spec fn bincode_decoding(bytes: Seq<u8>) -> Option<Seq<NoteView>>;

/// The encoding of the empty collection: a count of zero in eight bytes.
pub open spec fn empty_encoding() -> Seq<u8> {
    Seq::new(8, |i: int| 0u8)
}

/// Serializes notes with `bincode`.
///
/// Calls `bincode::serialize` on the notes as a vector of tuples, each
/// timestamp turned into a `chrono::DateTime<Utc>` by
/// `DateTime::from_timestamp`, which accepts every valid timestamp. The
/// call cannot fail on such rows: it sets no size limit, the length of the
/// sequence is known, and it writes into a vector, which takes every write.
/// A sequence is written as its length, a 64-bit number in eight bytes, and
/// then its items: so no notes give eight zero bytes.
#[verifier::external_body]
fn bincode_serialize(notes: &Vec<Note>) -> (result: Result<Vec<u8>, bincode::Error>)
    requires
        all_valid(notes_view(notes@)),
    ensures
        result is Ok,
        result matches Ok(bytes) ==> bytes@ == bincode_encoding(notes_view(notes@)),
        result matches Ok(bytes) ==> notes@.len() == 0 ==> bytes@ == empty_encoding(),
{
    let rows: Vec<(u64, &String, &String, DateTime<Utc>, DateTime<Utc>)> = notes.iter().map(|n| (
        n.id,
        &n.title,
        &n.content,
        DateTime::from_timestamp(n.created_at.secs, n.created_at.nanos).unwrap(),
        DateTime::from_timestamp(n.updated_at.secs, n.updated_at.nanos).unwrap(),
    )).collect();
    bincode::serialize(&rows)
}

/// Deserializes notes with `bincode`.
///
/// Calls `bincode::deserialize` for a vector of tuples and takes each
/// `chrono::DateTime<Utc>` apart with `timestamp` and
/// `timestamp_subsec_nanos`. Decoding is the inverse of encoding: read
/// back, the bytes that `bincode::serialize` gives for notes with valid
/// timestamps are those notes again (`chrono` writes a time with all its
/// digits).
#[verifier::external_body]
fn bincode_deserialize(bytes: &[u8]) -> (result: Result<Vec<Note>, bincode::Error>)
    ensures
        result matches Ok(notes) ==> bincode_decoding(bytes@) == Some(notes_view(notes@)),
        result is Err ==> bincode_decoding(bytes@) is None,
        forall|notes: Seq<NoteView>|
            all_valid(notes) && bytes@ == #[trigger] bincode_encoding(notes) ==> result is Ok
                && notes_view(result->Ok_0@) == notes,
{
    let rows: Vec<(u64, String, String, DateTime<Utc>, DateTime<Utc>)> =
        bincode::deserialize(bytes)?;
    Ok(rows.into_iter().map(|(id, title, content, made, edited)| Note {
        id,
        title,
        content,
        created_at: Timestamp { secs: made.timestamp(), nanos: made.timestamp_subsec_nanos() },
        updated_at: Timestamp { secs: edited.timestamp(), nanos: edited.timestamp_subsec_nanos() },
    }).collect())
}

/// What decoding makes of a plaintext: the notes that the bytes hold, if
/// they hold a collection whose timestamps are all valid.
pub open spec fn spec_decode_notes(bytes: Seq<u8>) -> Result<Seq<NoteView>, StoreError> {
    match bincode_decoding(bytes) {
        Some(notes) => if all_valid(notes) {
            Ok(notes)
        } else {
            Err(StoreError::DecodingFailure)
        },
        None => Err(StoreError::DecodingFailure),
    }
}

/// Serializes a collection. This always succeeds, and the bytes are the
/// encoding of the notes.
pub fn encode_notes(list: &NoteList) -> (result: Result<Vec<u8>, StoreError>)
    requires
        all_valid(list@),
    ensures
        result is Ok,
        result matches Ok(bytes) ==> bytes@ == bincode_encoding(list@),
        result matches Ok(bytes) ==> list@.len() == 0 ==> bytes@ == empty_encoding(),
{
    match bincode_serialize(&list.notes) {
        Ok(bytes) => Ok(bytes),
        Err(_) => Err(StoreError::EncodingFailure),
    }
}

/// Deserializes a collection and checks that every timestamp in it is
/// valid. The encoding of a collection with valid timestamps decodes to
/// that collection.
pub fn decode_notes(bytes: &[u8]) -> (result: Result<NoteList, StoreError>)
    ensures
        result matches Ok(list) ==> spec_decode_notes(bytes@) == Ok::<Seq<NoteView>, StoreError>(
            list@,
        ) && all_valid(list@),
        result matches Err(e) ==> spec_decode_notes(bytes@) == Err::<Seq<NoteView>, StoreError>(e),
        forall|notes: Seq<NoteView>|
            all_valid(notes) && bytes@ == #[trigger] bincode_encoding(notes) ==> result is Ok
                && result->Ok_0@ == notes,
{
    match bincode_deserialize(bytes) {
        Ok(notes) => {
            let list = NoteList { notes };
            if check_valid(&list) {
                Ok(list)
            } else {
                Err(StoreError::DecodingFailure)
            }
        },
        Err(_) => Err(StoreError::DecodingFailure),
    }
}

/// Whether a timestamp is valid.
fn timestamp_is_valid(t: &Timestamp) -> (valid: bool)
    ensures
        valid == t.valid(),
{
    Timestamp::new(t.secs, t.nanos).is_some()
}

/// Whether every timestamp of a collection is valid.
pub fn check_valid(list: &NoteList) -> (valid: bool)
    ensures
        valid == all_valid(list@),
{
    let mut i: usize = 0;
    while i < list.notes.len()
        invariant
            i <= list.notes@.len(),
            forall|j: int| 0 <= j < i ==> (#[trigger] list@[j]).valid(),
        decreases list.notes@.len() - i,
    {
        if !timestamp_is_valid(&list.notes[i].created_at) || !timestamp_is_valid(
            &list.notes[i].updated_at,
        ) {
            assert(!list@[i as int].valid());
            return false;
        }
        i += 1;
    }
    true
}

} // verus!
