use nocturne_notes::codec::{check_valid, decode_notes, encode_notes};
use nocturne_notes::data::{Note, NoteList};
use nocturne_notes::error::StoreError;
use nocturne_notes::timestamp::{Timestamp, MAX_SECS, MIN_SECS};

fn sample() -> Note {
    Note {
        id: 0x0102030405060708,
        title: "Hi".to_string(),
        content: "é".to_string(),
        created_at: Timestamp::new(1_431_648_000, 0).unwrap(),
        updated_at: Timestamp::new(1_431_648_001, 123_000_000).unwrap(),
    }
}

fn text_field(text: &str) -> Vec<u8> {
    let mut bytes = (text.len() as u64).to_le_bytes().to_vec();
    bytes.extend_from_slice(text.as_bytes());
    bytes
}

#[test]
fn empty_collection_is_a_zero_count() {
    let bytes = encode_notes(&NoteList::new()).unwrap();
    assert_eq!(bytes, vec![0u8; 8]);
}

#[test]
fn one_note_is_count_then_fields_in_order() {
    let bytes = encode_notes(&NoteList { notes: vec![sample()] }).unwrap();
    let mut expected = 1u64.to_le_bytes().to_vec();
    expected.extend_from_slice(&[8, 7, 6, 5, 4, 3, 2, 1]);
    expected.extend_from_slice(&text_field("Hi"));
    expected.extend_from_slice(&text_field("é"));
    expected.extend_from_slice(&text_field("2015-05-15T00:00:00Z"));
    expected.extend_from_slice(&text_field("2015-05-15T00:00:01.123Z"));
    assert_eq!(bytes, expected);
}

#[test]
fn decode_reads_what_encode_wrote() {
    let mut second = sample();
    second.id = 2;
    second.title = String::new();
    second.updated_at = Timestamp::new(1_431_648_002, 999_999_999).unwrap();
    let list = NoteList { notes: vec![sample(), second] };
    let decoded = decode_notes(&encode_notes(&list).unwrap()).unwrap();
    assert_eq!(decoded, list);
}

#[test]
fn decode_reads_a_zero_count_as_empty() {
    let decoded = decode_notes(&[0u8; 8]).unwrap();
    assert!(decoded.notes.is_empty());
}

#[test]
fn decode_keeps_the_order_of_the_bytes() {
    let mut older = sample();
    older.id = 1;
    let mut newer = sample();
    newer.id = 2;
    newer.updated_at = Timestamp::new(1_500_000_000, 0).unwrap();
    let list = NoteList { notes: vec![older, newer] };
    let decoded = decode_notes(&encode_notes(&list).unwrap()).unwrap();
    assert_eq!(decoded.notes[0].id, 1);
    assert_eq!(decoded.notes[1].id, 2);
}

#[test]
fn decode_reads_times_with_an_offset_as_utc() {
    let mut bytes = 1u64.to_le_bytes().to_vec();
    bytes.extend_from_slice(&5u64.to_le_bytes());
    bytes.extend_from_slice(&text_field("t"));
    bytes.extend_from_slice(&text_field("c"));
    bytes.extend_from_slice(&text_field("2015-05-15T02:00:00+02:00"));
    bytes.extend_from_slice(&text_field("2015-05-15T00:00:00.5Z"));
    let decoded = decode_notes(&bytes).unwrap();
    assert_eq!(decoded.notes[0].created_at, Timestamp { secs: 1_431_648_000, nanos: 0 });
    assert_eq!(decoded.notes[0].updated_at, Timestamp { secs: 1_431_648_000, nanos: 500_000_000 });
}

#[test]
fn the_ends_of_the_time_range_survive() {
    let mut n = sample();
    n.created_at = Timestamp::new(MIN_SECS, 0).unwrap();
    n.updated_at = Timestamp::new(MAX_SECS, 1_999_999_999).unwrap();
    let mut leap = sample();
    leap.created_at = Timestamp::new(-1, 1_000_000_000).unwrap();
    leap.updated_at = Timestamp::new(MAX_SECS, 999_999_999).unwrap();
    let list = NoteList { notes: vec![n, leap] };
    let decoded = decode_notes(&encode_notes(&list).unwrap()).unwrap();
    assert_eq!(decoded, list);
}

#[test]
fn decode_rejects_what_is_no_collection() {
    assert_eq!(decode_notes(&[]), Err(StoreError::DecodingFailure));
    assert_eq!(decode_notes(&[1, 0, 0]), Err(StoreError::DecodingFailure));
    assert_eq!(decode_notes(&1u64.to_le_bytes()), Err(StoreError::DecodingFailure));
    let mut truncated = encode_notes(&NoteList { notes: vec![sample()] }).unwrap();
    truncated.pop();
    assert_eq!(decode_notes(&truncated), Err(StoreError::DecodingFailure));
}

#[test]
fn decode_rejects_a_time_that_is_no_time() {
    let mut bytes = 1u64.to_le_bytes().to_vec();
    bytes.extend_from_slice(&5u64.to_le_bytes());
    bytes.extend_from_slice(&text_field("t"));
    bytes.extend_from_slice(&text_field("c"));
    bytes.extend_from_slice(&text_field("yesterday"));
    bytes.extend_from_slice(&text_field("2015-05-15T00:00:00Z"));
    assert_eq!(decode_notes(&bytes), Err(StoreError::DecodingFailure));
}

#[test]
fn decode_rejects_text_that_is_not_utf8() {
    let mut bytes = 1u64.to_le_bytes().to_vec();
    bytes.extend_from_slice(&5u64.to_le_bytes());
    bytes.extend_from_slice(&1u64.to_le_bytes());
    bytes.push(0xff);
    bytes.extend_from_slice(&text_field("c"));
    bytes.extend_from_slice(&text_field("2015-05-15T00:00:00Z"));
    bytes.extend_from_slice(&text_field("2015-05-15T00:00:00Z"));
    assert_eq!(decode_notes(&bytes), Err(StoreError::DecodingFailure));
}

#[test]
fn check_valid_looks_at_every_timestamp() {
    assert!(check_valid(&NoteList::new()));
    assert!(check_valid(&NoteList { notes: vec![sample(), sample()] }));
    let mut bad_created = sample();
    bad_created.created_at = Timestamp { secs: 0, nanos: 2_000_000_000 };
    assert!(!check_valid(&NoteList { notes: vec![sample(), bad_created] }));
    let mut bad_updated = sample();
    bad_updated.updated_at = Timestamp { secs: MAX_SECS + 1, nanos: 0 };
    assert!(!check_valid(&NoteList { notes: vec![bad_updated, sample()] }));
}

#[test]
fn times_of_every_magnitude_survive() {
    let mut notes = Vec::new();
    let mut secs_list = vec![0i64, 59, -1, MIN_SECS, MAX_SECS, MIN_SECS + 1, MAX_SECS - 60];
    let mut power = 1i64;
    for _ in 0..12 {
        power *= 10;
        secs_list.push(power);
        secs_list.push(-power);
        secs_list.push(power - 1);
        secs_list.push(-power - 1);
    }
    // The first and the last second of the years 0, 1, 9999 and 10000, and of the year before 0.
    for secs in [-62_198_755_200i64, -62_167_219_201, -62_167_219_200, -62_135_596_801,
        -62_135_596_800, 253_370_764_800, 253_402_300_799, 253_402_300_800, 253_433_836_799]
    {
        secs_list.push(secs);
    }
    let nanos_list = [0u32, 1, 100, 1_000, 123_000, 1_000_000, 123_456_789, 999_999_999,
        1_000_000_000, 1_000_000_001, 1_999_999_999];
    let mut id = 0u64;
    for secs in secs_list {
        for nanos in nanos_list {
            if let Some(t) = Timestamp::new(secs, nanos) {
                id += 1;
                let mut n = sample();
                n.id = id;
                n.created_at = t;
                n.updated_at = t;
                notes.push(n);
            }
        }
    }
    assert!(notes.len() > 400);
    let list = NoteList { notes };
    let decoded = decode_notes(&encode_notes(&list).unwrap()).unwrap();
    assert_eq!(decoded, list);
}

#[test]
fn texts_of_every_kind_survive() {
    let mut notes = Vec::new();
    for (i, text) in ["", " ", "\0", "\n\r\t", "ascii", "ünïcödé", "日本語", "🦀🦀", "a\u{10FFFF}b"]
        .iter()
        .enumerate()
    {
        let mut n = sample();
        n.id = i as u64;
        n.title = text.to_string();
        n.content = text.repeat(100);
        notes.push(n);
    }
    let list = NoteList { notes };
    let decoded = decode_notes(&encode_notes(&list).unwrap()).unwrap();
    assert_eq!(decoded, list);
}
