use nocturne_notes::data::{Note, NoteList};
use nocturne_notes::timestamp::Timestamp;

fn at(secs: i64) -> Timestamp {
    Timestamp::new(secs, 0).unwrap()
}

fn note(title: &str, secs: i64) -> Note {
    Note::created(title.to_string(), format!("content of {}", title), at(secs))
}

fn with_id(id: u64, title: &str, secs: i64) -> Note {
    Note {
        id,
        title: title.to_string(),
        content: String::new(),
        created_at: at(secs),
        updated_at: at(secs),
    }
}

fn titles(list: &NoteList) -> Vec<String> {
    list.notes.iter().map(|n| n.title.clone()).collect()
}

fn is_sorted(list: &NoteList) -> bool {
    list.notes.windows(2).all(|pair| !pair[0].updated_at.before(&pair[1].updated_at))
}

#[test]
fn created_note_has_the_time_as_id_and_both_stamps() {
    let now = Timestamp::new(1_431_648_000, 123_456_789).unwrap();
    let n = Note::created("t".to_string(), "c".to_string(), now);
    assert_eq!(n.id, 1_431_648_000_123);
    assert_eq!(n.title, "t");
    assert_eq!(n.content, "c");
    assert_eq!(n.created_at, now);
    assert_eq!(n.updated_at, now);
}

#[test]
fn created_note_before_the_epoch_wraps_its_id() {
    let now = Timestamp::new(-1, 0).unwrap();
    let n = Note::created(String::new(), String::new(), now);
    assert_eq!(n.id, (-1000i64) as u64);
    assert_eq!(n.id, u64::MAX - 999);
}

#[test]
fn new_note_is_stamped_by_the_clock() {
    let before = Timestamp::now();
    let n = Note::new("title".to_string(), "content".to_string());
    let after = Timestamp::now();
    assert_eq!(n.title, "title");
    assert_eq!(n.content, "content");
    assert_eq!(n.created_at, n.updated_at);
    assert_eq!(n.id as i64, n.created_at.millis());
    assert!(!n.created_at.before(&before));
    assert!(!after.before(&n.created_at));
}

#[test]
fn clone_copies_every_field() {
    let n = note("a", 5);
    assert_eq!(n.clone(), n);
}

#[test]
fn note_text_has_fixed_headings() {
    let n = Note::created("Groceries".to_string(), "milk\neggs".to_string(), at(1));
    assert_eq!(n.to_text(), "Title: Groceries\n\nContent:\nmilk\neggs");
    let empty = Note::created(String::new(), String::new(), at(1));
    assert_eq!(empty.to_text(), "Title: \n\nContent:\n");
}

#[test]
fn new_list_is_empty() {
    assert!(NoteList::new().notes.is_empty());
}

#[test]
fn add_keeps_most_recent_first() {
    let mut list = NoteList::new();
    list.add_note(note("b", 20));
    list.add_note(note("a", 10));
    list.add_note(note("d", 40));
    list.add_note(note("c", 30));
    assert_eq!(titles(&list), ["d", "c", "b", "a"]);
    assert!(is_sorted(&list));
}

#[test]
fn add_puts_equal_times_behind_those_already_there() {
    let mut list = NoteList::new();
    list.add_note(note("first", 10));
    list.add_note(note("second", 10));
    list.add_note(note("newer", 11));
    list.add_note(note("third", 10));
    list.add_note(note("older", 9));
    assert_eq!(titles(&list), ["newer", "first", "second", "third", "older"]);
}

#[test]
fn add_orders_by_nanoseconds_within_a_second() {
    let mut list = NoteList::new();
    let early = Timestamp::new(10, 1).unwrap();
    let late = Timestamp::new(10, 2).unwrap();
    list.add_note(Note::created("early".to_string(), String::new(), early));
    list.add_note(Note::created("late".to_string(), String::new(), late));
    assert_eq!(titles(&list), ["late", "early"]);
}

#[test]
fn add_sorts_a_list_that_was_out_of_order() {
    let mut list = NoteList { notes: vec![note("a", 10), note("c", 30), note("b", 20)] };
    list.add_note(note("d", 5));
    assert_eq!(titles(&list), ["c", "b", "a", "d"]);
}

#[test]
fn add_does_not_deduplicate_ids() {
    let mut list = NoteList::new();
    list.add_note(with_id(7, "one", 10));
    list.add_note(with_id(7, "two", 20));
    assert_eq!(list.notes.len(), 2);
    assert_eq!(titles(&list), ["two", "one"]);
}

#[test]
fn order_holds_after_any_run_of_adds_and_updates() {
    let mut list = NoteList::new();
    let mut clock = 100i64;
    let mut seed = 12345u64;
    for step in 0..60u64 {
        seed = seed.wrapping_mul(6364136223846793005).wrapping_add(1442695040888963407);
        let pick = (seed >> 33) % 7;
        if pick < 4 {
            list.add_note(with_id(step, "n", (seed >> 40) as i64 % 50));
        } else {
            clock += 1;
            list.update_note_at((seed >> 20) % 60, "u".to_string(), String::new(), at(clock));
        }
        assert!(is_sorted(&list), "out of order after step {}", step);
    }
    assert!(list.notes.len() > 10);
}

#[test]
fn update_rewrites_and_moves_to_the_front() {
    let mut list = NoteList::new();
    list.add_note(with_id(1, "a", 10));
    list.add_note(with_id(2, "b", 20));
    list.add_note(with_id(3, "c", 30));
    let updated = list.update_note_at(1, "A".to_string(), "new".to_string(), at(40));
    assert!(updated);
    assert_eq!(titles(&list), ["A", "c", "b"]);
    let first = &list.notes[0];
    assert_eq!(first.id, 1);
    assert_eq!(first.content, "new");
    assert_eq!(first.created_at, at(10));
    assert_eq!(first.updated_at, at(40));
}

#[test]
fn update_with_an_older_time_moves_back() {
    let mut list = NoteList::new();
    list.add_note(with_id(1, "a", 10));
    list.add_note(with_id(2, "b", 20));
    list.add_note(with_id(3, "c", 30));
    assert!(list.update_note_at(3, "c".to_string(), String::new(), at(5)));
    assert_eq!(titles(&list), ["b", "a", "c"]);
}

#[test]
fn update_of_an_absent_id_changes_nothing() {
    let mut list = NoteList::new();
    list.add_note(with_id(1, "a", 10));
    let before = list.notes.clone();
    assert!(!list.update_note_at(2, "x".to_string(), "y".to_string(), at(99)));
    assert_eq!(list.notes, before);
    assert!(!list.update_note(2, "x".to_string(), "y".to_string()));
    assert_eq!(list.notes, before);
}

#[test]
fn update_touches_only_the_first_of_equal_ids() {
    let mut list = NoteList::new();
    list.add_note(with_id(7, "old", 10));
    list.add_note(with_id(7, "new", 20));
    assert!(list.update_note_at(7, "changed".to_string(), String::new(), at(15)));
    assert_eq!(titles(&list), ["changed", "old"]);
}

#[test]
fn update_by_the_clock_refreshes_updated_at() {
    let mut list = NoteList::new();
    list.add_note(with_id(1, "a", 10));
    let before = Timestamp::now();
    assert!(list.update_note(1, "b".to_string(), "c".to_string()));
    let n = &list.notes[0];
    assert_eq!(n.title, "b");
    assert_eq!(n.content, "c");
    assert_eq!(n.created_at, at(10));
    assert!(!n.updated_at.before(&before));
}

#[test]
fn delete_removes_the_note_and_reports_it() {
    let mut list = NoteList::new();
    list.add_note(with_id(1, "a", 10));
    list.add_note(with_id(2, "b", 20));
    list.add_note(with_id(3, "c", 30));
    assert!(list.delete_note(2));
    assert_eq!(titles(&list), ["c", "a"]);
    assert!(!list.delete_note(2));
    assert_eq!(titles(&list), ["c", "a"]);
}

#[test]
fn delete_removes_every_note_with_the_id() {
    let mut list = NoteList::new();
    list.add_note(with_id(7, "one", 10));
    list.add_note(with_id(8, "keep", 15));
    list.add_note(with_id(7, "two", 20));
    assert!(list.delete_note(7));
    assert_eq!(titles(&list), ["keep"]);
}

#[test]
fn delete_on_an_empty_list_reports_nothing() {
    let mut list = NoteList::new();
    assert!(!list.delete_note(1));
    assert!(list.notes.is_empty());
}

#[test]
fn find_gives_the_first_note_with_the_id() {
    let mut list = NoteList::new();
    list.add_note(with_id(7, "old", 10));
    list.add_note(with_id(7, "new", 20));
    list.add_note(with_id(8, "other", 30));
    assert_eq!(list.find(7).unwrap().title, "new");
    assert_eq!(list.find(8).unwrap().title, "other");
    assert!(list.find(9).is_none());
    assert_eq!(list.position(8), 0);
    assert_eq!(list.position(7), 1);
    assert_eq!(list.position(9), 3);
}

#[test]
fn delete_keeps_the_order_of_the_rest() {
    let mut list = NoteList::new();
    for (id, secs) in [(1u64, 10i64), (2, 20), (3, 30), (4, 40), (5, 50)] {
        list.add_note(with_id(id, "n", secs));
    }
    assert!(list.delete_note(3));
    let ids: Vec<u64> = list.notes.iter().map(|n| n.id).collect();
    assert_eq!(ids, [5, 4, 2, 1]);
    assert!(is_sorted(&list));
}

#[test]
fn merge_adds_every_note_and_sorts() {
    let mut list = NoteList::new();
    list.add_note(with_id(1, "a", 10));
    list.add_note(with_id(3, "c", 30));
    let incoming = NoteList { notes: vec![with_id(2, "b", 20), with_id(1, "a again", 10)] };
    list.merge_from(incoming);
    assert_eq!(titles(&list), ["c", "b", "a", "a again"]);
    assert_eq!(list.notes.len(), 4);
}

#[test]
fn merge_of_nothing_changes_nothing() {
    let mut list = NoteList { notes: vec![with_id(1, "a", 10), with_id(2, "b", 20)] };
    list.merge_from(NoteList::new());
    assert_eq!(titles(&list), ["a", "b"]);
}

#[test]
fn sorting_many_notes_is_stable() {
    let mut list = NoteList::new();
    for i in 0..200u64 {
        list.add_note(with_id(i, "n", (i % 5) as i64));
    }
    assert!(is_sorted(&list));
    for pair in list.notes.windows(2) {
        if pair[0].updated_at == pair[1].updated_at {
            assert!(pair[0].id < pair[1].id);
        }
    }
    assert_eq!(list.notes.len(), 200);
}
