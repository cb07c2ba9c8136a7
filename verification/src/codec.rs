//! The form in which the notes of a store are kept between two runs: a
//! sequence of bytes, one record for each note.
//!
//! A record is the note's time as eight bytes, least significant first, and
//! then its id, its title and its content, each as the number of its bytes in
//! UTF-8, again in eight bytes, followed by those bytes. The records stand
//! one behind the other with nothing between or around them.

use vstd::prelude::*;
use vstd::bytes::{
    lemma_auto_spec_u64_to_from_le_bytes, spec_u64_from_le_bytes, spec_u64_to_le_bytes,
    u64_from_le_bytes, u64_to_le_bytes,
};
use vstd::slice::slice_subrange;
use vstd::utf8::{
    decode_utf8, decode_utf8_encode_utf8, encode_utf8, encode_utf8_decode_utf8,
    encode_utf8_valid_utf8, valid_utf8,
};
use crate::error::NotebookCliError;
use crate::note::NoteView;
use crate::model::{holds_id, well_kept};
use crate::store::NoteStore;
use crate::text::text_of_utf8;

verus! {

/// A text in bytes: the number of the bytes of its UTF-8 form, and that form.
pub open spec fn encoded_text(text: Seq<char>) -> Seq<u8> {
    spec_u64_to_le_bytes(encode_utf8(text).len() as u64) + encode_utf8(text)
}

/// The record of a note.
pub open spec fn encoded_note(note: NoteView) -> Seq<u8> {
    spec_u64_to_le_bytes(note.created_at) + encoded_text(note.id) + encoded_text(note.title)
        + encoded_text(note.content)
}

/// The records of `notes`, one behind the other.
pub open spec fn encoded(notes: Seq<NoteView>) -> Seq<u8>
    decreases notes.len(),
{
    if notes.len() == 0 {
        Seq::empty()
    } else {
        encoded(notes.drop_last()) + encoded_note(notes.last())
    }
}

/// Whether the number of bytes of `text` can be written in eight bytes.
pub open spec fn text_fits(text: Seq<char>) -> bool {
    encode_utf8(text).len() <= u64::MAX
}

/// Whether each text of `note` fits.
pub open spec fn note_fits(note: NoteView) -> bool {
    &&& text_fits(note.id)
    &&& text_fits(note.title)
    &&& text_fits(note.content)
}

/// Whether each note of `notes` fits.
pub open spec fn all_fit(notes: Seq<NoteView>) -> bool {
    forall|i: int| 0 <= i < notes.len() ==> note_fits(#[trigger] notes[i])
}

/// The number at the front of `bytes`, and the bytes behind it.
pub open spec fn read_number(bytes: Seq<u8>) -> Option<(u64, Seq<u8>)> {
    if bytes.len() >= 8 {
        Some((spec_u64_from_le_bytes(bytes.take(8)), bytes.skip(8)))
    } else {
        None
    }
}

/// The text at the front of `bytes`, and the bytes behind it.
pub open spec fn read_text(bytes: Seq<u8>) -> Option<(Seq<char>, Seq<u8>)> {
    match read_number(bytes) {
        Some((count, rest)) => if count <= rest.len() && valid_utf8(rest.take(count as int)) {
            Some((decode_utf8(rest.take(count as int)), rest.skip(count as int)))
        } else {
            None
        },
        None => None,
    }
}

/// The record at the front of `bytes`, and the bytes behind it.
pub open spec fn read_note(bytes: Seq<u8>) -> Option<(NoteView, Seq<u8>)> {
    match read_number(bytes) {
        Some((created_at, rest)) => match read_text(rest) {
            Some((id, rest)) => match read_text(rest) {
                Some((title, rest)) => match read_text(rest) {
                    Some((content, rest)) => Some((NoteView { id, title, content, created_at }, rest)),
                    None => None,
                },
                None => None,
            },
            None => None,
        },
        None => None,
    }
}

/// The notes whose records make up `bytes`, where `bytes` is made of records
/// from its first byte to its last.
pub open spec fn read_notes(bytes: Seq<u8>) -> Option<Seq<NoteView>>
    decreases bytes.len(),
{
    if bytes.len() == 0 {
        Some(Seq::empty())
    } else {
        match read_note(bytes) {
            Some((note, rest)) => match read_notes(rest) {
                Some(more) => Some(seq![note] + more),
                None => None,
            },
            None => None,
        }
    }
}

/// What a store reads from `bytes`: the notes whose records they are, if they
/// are records of well-kept notes. All other bytes are a failure of the
/// store.
pub open spec fn decoded(bytes: Seq<u8>) -> Result<Seq<NoteView>, NotebookCliError> {
    match read_notes(bytes) {
        Some(notes) => if well_kept(notes) {
            Ok(notes)
        } else {
            Err(NotebookCliError::Store)
        },
        None => Err(NotebookCliError::Store),
    }
}

/// Puts `more` behind the bytes of `out`.
fn put_bytes(out: &mut Vec<u8>, more: &[u8])
    ensures
        final(out)@ == old(out)@ + more@,
{
    let mut at: usize = 0;
    while at < more.len()
        invariant
            at <= more.len(),
            out@ == old(out)@ + more@.take(at as int),
        decreases more.len() - at,
    {
        out.push(more[at]);
        assert(more@.take(at + 1) =~= more@.take(at as int).push(more@[at as int]));
        at += 1;
    }
    assert(more@.take(at as int) =~= more@);
}

/// Puts a number behind the bytes of `out`.
fn put_number(out: &mut Vec<u8>, number: u64)
    ensures
        final(out)@ == old(out)@ + spec_u64_to_le_bytes(number),
{
    let bytes = u64_to_le_bytes(number);
    put_bytes(out, bytes.as_slice());
}

/// Puts a text behind the bytes of `out`.
fn put_text(out: &mut Vec<u8>, text: &str)
    ensures
        final(out)@ == old(out)@ + encoded_text(text@),
        text_fits(text@),
{
    let bytes = text.as_bytes();
    put_number(out, bytes.len() as u64);
    put_bytes(out, bytes);
    assert(out@ =~= old(out)@ + encoded_text(text@));
}

/// Returns the records of the notes of `store`, in the order in which the
/// store lists them.
pub fn encode(store: &NoteStore) -> (bytes: Vec<u8>)
    ensures
        bytes@ == encoded(store@),
        well_kept(store@),
        all_fit(store@),
{
    proof {
        use_type_invariant(store);
    }
    let mut bytes: Vec<u8> = Vec::new();
    let count = store.len();
    let mut at: usize = 0;
    while at < count
        invariant
            count == store@.len(),
            at <= count,
            bytes@ == encoded(store@.take(at as int)),
            all_fit(store@.take(at as int)),
        decreases count - at,
    {
        let note = store.get(at).unwrap();
        let ghost before = bytes@;
        put_number(&mut bytes, note.created_at());
        put_text(&mut bytes, note.id());
        put_text(&mut bytes, note.title());
        put_text(&mut bytes, note.content());
        proof {
            let seen = store@.take(at + 1);
            assert(seen.drop_last() =~= store@.take(at as int));
            assert(seen.last() == note@);
            assert(bytes@ =~= before + encoded_note(note@));
        }
        at += 1;
    }
    assert(store@.take(at as int) =~= store@);
    bytes
}

/// The records of two runs of notes, one behind the other, are the records of
/// the two runs as one.
pub proof fn encoded_joins(first: Seq<NoteView>, second: Seq<NoteView>)
    ensures
        encoded(first + second) == encoded(first) + encoded(second),
    decreases second.len(),
{
    if second.len() == 0 {
        assert(first + second =~= first);
        assert(encoded(first) + encoded(second) =~= encoded(first));
    } else {
        encoded_joins(first, second.drop_last());
        assert((first + second).drop_last() =~= first + second.drop_last());
        assert((first + second).last() == second.last());
        assert(encoded(first + second) =~= encoded(first) + encoded(second));
    }
}

/// A number is read back from its eight bytes, whatever stands behind them.
proof fn lemma_number_reads_back(number: u64, rest: Seq<u8>)
    ensures
        read_number(spec_u64_to_le_bytes(number) + rest) == Some((number, rest)),
{
    lemma_auto_spec_u64_to_from_le_bytes();
    let bytes = spec_u64_to_le_bytes(number) + rest;
    assert(bytes.take(8) =~= spec_u64_to_le_bytes(number));
    assert(bytes.skip(8) =~= rest);
}

/// A text that fits is read back from its bytes, whatever stands behind them.
proof fn lemma_text_reads_back(text: Seq<char>, rest: Seq<u8>)
    requires
        text_fits(text),
    ensures
        read_text(encoded_text(text) + rest) == Some((text, rest)),
{
    let body = encode_utf8(text);
    lemma_number_reads_back(body.len() as u64, body + rest);
    assert(encoded_text(text) + rest =~= spec_u64_to_le_bytes(body.len() as u64) + (body + rest));
    assert((body + rest).take(body.len() as int) =~= body);
    assert((body + rest).skip(body.len() as int) =~= rest);
    encode_utf8_valid_utf8(text);
    encode_utf8_decode_utf8(text);
}

/// A note that fits is read back from its record, whatever stands behind it.
pub proof fn note_reads_back(note: NoteView, rest: Seq<u8>)
    requires
        note_fits(note),
    ensures
        read_note(encoded_note(note) + rest) == Some((note, rest)),
        encoded_note(note).len() > 0,
{
    let content = encoded_text(note.content) + rest;
    let title = encoded_text(note.title) + content;
    let id = encoded_text(note.id) + title;
    assert(encoded_note(note) + rest =~= spec_u64_to_le_bytes(note.created_at) + id);
    lemma_number_reads_back(note.created_at, id);
    lemma_text_reads_back(note.id, title);
    lemma_text_reads_back(note.title, content);
    lemma_text_reads_back(note.content, rest);
    lemma_auto_spec_u64_to_from_le_bytes();
}

/// Notes that fit are read back from their records.
proof fn lemma_notes_read_back(notes: Seq<NoteView>)
    requires
        all_fit(notes),
    ensures
        read_notes(encoded(notes)) == Some(notes),
    decreases notes.len(),
{
    if notes.len() == 0 {
    } else {
        let first = notes.first();
        let others = notes.drop_first();
        assert(notes =~= seq![first] + others);
        encoded_joins(seq![first], others);
        assert(encoded(seq![first]) =~= encoded_note(first)) by {
            assert(seq![first].drop_last() =~= Seq::<NoteView>::empty());
            reveal_with_fuel(encoded, 2);
        }
        assert(note_fits(first));
        note_reads_back(first, encoded(others));
        assert forall|i: int| 0 <= i < others.len() implies note_fits(#[trigger] others[i]) by {
            assert(others[i] == notes[i + 1]);
        }
        lemma_notes_read_back(others);
    }
}

/// Reading undoes writing: the records of well-kept notes that fit are read
/// back as the same notes in the same order.
pub proof fn decode_undoes_encode(notes: Seq<NoteView>)
    requires
        well_kept(notes),
        all_fit(notes),
    ensures
        decoded(encoded(notes)) == Ok::<Seq<NoteView>, NotebookCliError>(notes),
{
    lemma_notes_read_back(notes);
}

/// Bytes from which a number is read are that number's eight bytes and the
/// rest.
proof fn lemma_number_was_written(bytes: Seq<u8>)
    requires
        read_number(bytes) is Some,
    ensures
        read_number(bytes) matches Some((number, rest)) && bytes == spec_u64_to_le_bytes(number)
            + rest,
{
    lemma_auto_spec_u64_to_from_le_bytes();
    let front = bytes.take(8);
    assert(spec_u64_to_le_bytes(spec_u64_from_le_bytes(front)) == front);
    assert(bytes =~= front + bytes.skip(8));
}

/// Bytes from which a text is read are that text's bytes and the rest, and
/// the text fits.
proof fn lemma_text_was_written(bytes: Seq<u8>)
    requires
        read_text(bytes) is Some,
    ensures
        read_text(bytes) matches Some((text, rest)) && bytes == encoded_text(text) + rest
            && text_fits(text),
{
    lemma_number_was_written(bytes);
    let (count, rest) = read_number(bytes)->0;
    let body = rest.take(count as int);
    decode_utf8_encode_utf8(body);
    assert(rest =~= body + rest.skip(count as int));
    assert(bytes =~= encoded_text(decode_utf8(body)) + rest.skip(count as int));
}

/// Bytes from which a note is read are that note's record and the rest, and
/// the note fits.
proof fn lemma_note_was_written(bytes: Seq<u8>)
    requires
        read_note(bytes) is Some,
    ensures
        read_note(bytes) matches Some((note, rest)) && bytes == encoded_note(note) + rest
            && note_fits(note) && rest.len() < bytes.len(),
{
    lemma_number_was_written(bytes);
    let (_, after_time) = read_number(bytes)->0;
    lemma_text_was_written(after_time);
    let (_, after_id) = read_text(after_time)->0;
    lemma_text_was_written(after_id);
    let (_, after_title) = read_text(after_id)->0;
    lemma_text_was_written(after_title);
    let (note, rest) = read_note(bytes)->0;
    assert(bytes =~= encoded_note(note) + rest);
    lemma_auto_spec_u64_to_from_le_bytes();
}

/// Bytes from which notes are read are the records of those notes, and the
/// notes fit.
proof fn lemma_notes_were_written(bytes: Seq<u8>)
    requires
        read_notes(bytes) is Some,
    ensures
        encoded(read_notes(bytes)->0) == bytes,
        all_fit(read_notes(bytes)->0),
    decreases bytes.len(),
{
    if bytes.len() == 0 {
        assert(encoded(Seq::<NoteView>::empty()) =~= bytes);
    } else {
        lemma_note_was_written(bytes);
        let (note, rest) = read_note(bytes)->0;
        lemma_notes_were_written(rest);
        let more = read_notes(rest)->0;
        encoded_joins(seq![note], more);
        assert(encoded(seq![note]) =~= encoded_note(note)) by {
            assert(seq![note].drop_last() =~= Seq::<NoteView>::empty());
            reveal_with_fuel(encoded, 2);
        }
    }
}

/// Nothing but records is read: bytes that a store accepts are the records
/// of the notes that it reads from them.
pub proof fn decoded_bytes_are_records(bytes: Seq<u8>)
    requires
        decoded(bytes) is Ok,
    ensures
        encoded(decoded(bytes)->Ok_0) == bytes,
        well_kept(decoded(bytes)->Ok_0),
        all_fit(decoded(bytes)->Ok_0),
{
    lemma_notes_were_written(bytes);
}

/// The notes read so far with the notes that are still to be read, where
/// there are any.
spec fn joined(so_far: Seq<NoteView>, rest: Option<Seq<NoteView>>) -> Option<Seq<NoteView>> {
    match rest {
        Some(more) => Some(so_far + more),
        None => None,
    }
}

/// Takes the number that stands at `at`, and tells where it ends.
fn take_number(bytes: &[u8], at: usize) -> (taken: Option<(u64, usize)>)
    requires
        at <= bytes@.len(),
    ensures
        match taken {
            Some((number, next)) => {
                &&& at < next <= bytes@.len()
                &&& read_number(bytes@.skip(at as int)) == Some((number, bytes@.skip(next as int)))
            },
            None => read_number(bytes@.skip(at as int)) is None,
        },
{
    if bytes.len() - at < 8 {
        return None;
    }
    let number = u64_from_le_bytes(slice_subrange(bytes, at, at + 8));
    proof {
        assert(bytes@.skip(at as int).take(8) =~= bytes@.subrange(at as int, at + 8));
        assert(bytes@.skip(at as int).skip(8) =~= bytes@.skip(at + 8));
    }
    Some((number, at + 8))
}

/// Takes the text that stands at `at`, and tells where it ends.
fn take_text(bytes: &[u8], at: usize) -> (taken: Option<(String, usize)>)
    requires
        at <= bytes@.len(),
    ensures
        match taken {
            Some((text, next)) => {
                &&& at < next <= bytes@.len()
                &&& read_text(bytes@.skip(at as int)) == Some((text@, bytes@.skip(next as int)))
            },
            None => read_text(bytes@.skip(at as int)) is None,
        },
{
    match take_number(bytes, at) {
        None => None,
        Some((count, start)) => {
            if count > (bytes.len() - start) as u64 {
                return None;
            }
            let end = start + count as usize;
            proof {
                let rest = bytes@.skip(start as int);
                assert(rest.take(count as int) =~= bytes@.subrange(start as int, end as int));
                assert(rest.skip(count as int) =~= bytes@.skip(end as int));
            }
            match text_of_utf8(slice_subrange(bytes, start, end)) {
                None => None,
                Some(text) => {
                    proof {
                        encode_utf8_decode_utf8(text@);
                    }
                    Some((text, end))
                },
            }
        },
    }
}

/// Takes the record that stands at `at`, and tells where it ends.
fn take_note(bytes: &[u8], at: usize) -> (taken: Option<(u64, String, String, String, usize)>)
    requires
        at <= bytes@.len(),
    ensures
        match taken {
            Some((created_at, id, title, content, next)) => {
                &&& at < next <= bytes@.len()
                &&& read_note(bytes@.skip(at as int)) == Some(
                    (
                        NoteView { id: id@, title: title@, content: content@, created_at },
                        bytes@.skip(next as int),
                    ),
                )
            },
            None => read_note(bytes@.skip(at as int)) is None,
        },
{
    let (created_at, at) = match take_number(bytes, at) {
        Some(taken) => taken,
        None => return None,
    };
    let (id, at) = match take_text(bytes, at) {
        Some(taken) => taken,
        None => return None,
    };
    let (title, at) = match take_text(bytes, at) {
        Some(taken) => taken,
        None => return None,
    };
    let (content, at) = match take_text(bytes, at) {
        Some(taken) => taken,
        None => return None,
    };
    Some((created_at, id, title, content, at))
}

/// Notes are not well kept where one of them has no title, or the id of a
/// note before it.
proof fn lemma_bad_note_spoils(so_far: Seq<NoteView>, note: NoteView, more: Seq<NoteView>)
    requires
        note.title.len() == 0 || holds_id(so_far, note.id),
    ensures
        !well_kept(so_far + (seq![note] + more)),
{
    let all = so_far + (seq![note] + more);
    let here = so_far.len() as int;
    assert(all[here] == note);
    if note.title.len() != 0 {
        let i = choose|i: int| 0 <= i < so_far.len() && (#[trigger] so_far[i]).id == note.id;
        assert(all[i] == so_far[i]);
    }
}

/// Reads the notes of a store from `bytes`. Succeeds exactly where the bytes
/// are the records of well-kept notes, and gives the store of those notes,
/// in the order of their records; bytes that are cut short, that hold text
/// which is no UTF-8, or whose notes share an id or lack a title, are a
/// failure of the store.
pub fn decode(bytes: &[u8]) -> (store: Result<NoteStore, NotebookCliError>)
    ensures
        match decoded(bytes@) {
            Ok(notes) => store matches Ok(s) && s@ == notes,
            Err(e) => store matches Err(x) && x == e,
        },
{
    let mut store = NoteStore::new();
    let mut at: usize = 0;
    proof {
        assert(bytes@.skip(0) =~= bytes@);
        assert(read_notes(bytes@) == joined(store@, read_notes(bytes@))) by {
            if read_notes(bytes@) is Some {
                assert(store@ + read_notes(bytes@)->0 =~= read_notes(bytes@)->0);
            }
        }
    }
    while at < bytes.len()
        invariant
            at <= bytes@.len(),
            well_kept(store@),
            read_notes(bytes@) == joined(store@, read_notes(bytes@.skip(at as int))),
        decreases bytes@.len() - at,
    {
        let ghost so_far = store@;
        match take_note(bytes, at) {
            None => {
                return Err(NotebookCliError::Store);
            },
            Some((created_at, id, title, content, next)) => {
                let ghost note = NoteView { id: id@, title: title@, content: content@, created_at };
                let ghost rest = read_notes(bytes@.skip(next as int));
                proof {
                    if rest is Some {
                        assert(so_far + (seq![note] + rest->0) =~= so_far.push(note) + rest->0);
                    }
                }
                match store.insert(id.as_str(), title.as_str(), content.as_str(), created_at) {
                    Err(_) => {
                        proof {
                            if rest is Some {
                                lemma_bad_note_spoils(so_far, note, rest->0);
                            }
                        }
                        return Err(NotebookCliError::Store);
                    },
                    Ok(_) => {},
                }
                at = next;
            },
        }
    }
    proof {
        assert(bytes@.skip(at as int) =~= Seq::<u8>::empty());
        assert(store@ + Seq::<NoteView>::empty() =~= store@);
    }
    Ok(store)
}

} // verus!
