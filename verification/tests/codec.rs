use notebook_cli::{decode, encode, NoteStore, NotebookCliError};

fn number(n: u64) -> Vec<u8> {
    n.to_le_bytes().to_vec()
}

fn text(t: &str) -> Vec<u8> {
    let mut bytes = number(t.len() as u64);
    bytes.extend_from_slice(t.as_bytes());
    bytes
}

fn record(created_at: u64, id: &str, title: &str, content: &str) -> Vec<u8> {
    let mut bytes = number(created_at);
    bytes.extend(text(id));
    bytes.extend(text(title));
    bytes.extend(text(content));
    bytes
}

fn failure(bytes: &[u8]) -> NotebookCliError {
    match decode(bytes) {
        Ok(store) => panic!("a store was read: {:?}", store),
        Err(e) => e,
    }
}

#[test]
fn an_empty_store_is_no_bytes() {
    assert_eq!(encode(&NoteStore::new()), Vec::<u8>::new());
    assert_eq!(decode(&[]).unwrap().len(), 0);
}

#[test]
fn the_record_of_a_note_byte_by_byte() {
    let mut store = NoteStore::new();
    store.insert("a", "Tü", "", 258).unwrap();
    assert_eq!(
        encode(&store),
        vec![
            2, 1, 0, 0, 0, 0, 0, 0, // the time
            1, 0, 0, 0, 0, 0, 0, 0, b'a', // the id
            3, 0, 0, 0, 0, 0, 0, 0, b'T', 0xc3, 0xbc, // the title
            0, 0, 0, 0, 0, 0, 0, 0, // the content
        ]
    );
}

#[test]
fn records_stand_in_the_order_of_the_list() {
    let mut store = NoteStore::new();
    store.insert("1", "one", "first", 10).unwrap();
    store.insert("2", "two", "second", 20).unwrap();
    let mut expected = record(10, "1", "one", "first");
    expected.extend(record(20, "2", "two", "second"));
    assert_eq!(encode(&store), expected);
}

#[test]
fn decode_reads_a_record() {
    let store = decode(&record(7, "id-1", "Title", "Line one\nLine two")).unwrap();
    let notes = store.list();
    assert_eq!(notes.len(), 1);
    assert_eq!(notes[0].id(), "id-1");
    assert_eq!(notes[0].title(), "Title");
    assert_eq!(notes[0].content(), "Line one\nLine two");
    assert_eq!(notes[0].created_at(), 7);
}

#[test]
fn decode_undoes_encode() {
    let mut store = NoteStore::new();
    store.add("Shopping List", "milk, eggs", 1).unwrap();
    store.add("Übung ✓", "zwölf\nZeilen\n", u64::MAX).unwrap();
    store.add("empty content", "", 0).unwrap();
    store.insert("", "empty id", "x", 5).unwrap();
    let read = decode(&encode(&store)).unwrap();
    assert_eq!(read.list(), store.list());
}

#[test]
fn encode_undoes_decode() {
    let mut bytes = record(1, "b", "B", "");
    bytes.extend(record(2, "a", "A", "text"));
    assert_eq!(encode(&decode(&bytes).unwrap()), bytes);
}

#[test]
fn decode_refuses_bytes_that_are_cut_short() {
    let bytes = record(7, "id-1", "Title", "Content");
    for cut in 1..bytes.len() {
        assert_eq!(failure(&bytes[..cut]), NotebookCliError::Store, "cut at {}", cut);
    }
}

#[test]
fn decode_refuses_bytes_behind_the_last_record() {
    let mut bytes = record(7, "id-1", "Title", "Content");
    bytes.push(0);
    assert_eq!(failure(&bytes), NotebookCliError::Store);
}

#[test]
fn decode_refuses_a_length_beyond_the_bytes() {
    let mut bytes = number(7);
    bytes.extend(number(u64::MAX));
    bytes.extend_from_slice(b"id");
    assert_eq!(failure(&bytes), NotebookCliError::Store);
}

#[test]
fn decode_refuses_text_that_is_no_utf8() {
    let mut bytes = number(7);
    bytes.extend(text("id-1"));
    bytes.extend(number(2));
    bytes.extend_from_slice(&[0xff, 0xfe]);
    bytes.extend(text("content"));
    assert_eq!(failure(&bytes), NotebookCliError::Store);
}

#[test]
fn decode_refuses_text_that_is_cut_inside_a_character() {
    let mut bytes = number(7);
    bytes.extend(text("id-1"));
    bytes.extend(number(2));
    bytes.extend_from_slice("Tü".as_bytes());
    bytes.extend(text("content"));
    assert_eq!(failure(&bytes), NotebookCliError::Store);
}

#[test]
fn decode_refuses_two_notes_with_one_id() {
    let mut bytes = record(1, "same", "first", "");
    bytes.extend(record(2, "other", "second", ""));
    bytes.extend(record(3, "same", "third", ""));
    assert_eq!(failure(&bytes), NotebookCliError::Store);
}

#[test]
fn decode_refuses_a_note_without_a_title() {
    let mut bytes = record(1, "a", "first", "");
    bytes.extend(record(2, "b", "", "content"));
    assert_eq!(failure(&bytes), NotebookCliError::Store);
}

#[test]
fn a_store_that_was_read_works_on() {
    let mut store = decode(&record(7, "id-1", "Title", "Content")).unwrap();
    let added = store.add("next", "", 8).unwrap();
    assert_ne!(added.id(), "id-1");
    assert_eq!(store.remove("id-1"), Ok(()));
    assert_eq!(store.list(), vec![added]);
}
