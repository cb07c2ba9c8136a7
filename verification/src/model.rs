//! The notes of a store as a sequence of plain values: what a well-kept
//! sequence is, what adding and removing do to it, and what follows.

use vstd::prelude::*;
use crate::error::NotebookCliError;
use crate::ident::is_uuid_text;
use crate::note::{Note, NoteView};

verus! {

/// Whether some note of `notes` has the id `id`.
pub open spec fn holds_id(notes: Seq<NoteView>, id: Seq<char>) -> bool {
    exists|i: int| 0 <= i < notes.len() && (#[trigger] notes[i]).id == id
}

/// No two notes of `notes` share an id.
pub open spec fn ids_distinct(notes: Seq<NoteView>) -> bool {
    forall|i: int, j: int|
        0 <= i < j < notes.len() ==> (#[trigger] notes[i]).id != (#[trigger] notes[j]).id
}

/// Every note of `notes` has a title of at least one character.
pub open spec fn titles_present(notes: Seq<NoteView>) -> bool {
    forall|i: int| 0 <= i < notes.len() ==> (#[trigger] notes[i]).title.len() > 0
}

/// What holds of the notes of every store: distinct ids, and no empty title.
pub open spec fn well_kept(notes: Seq<NoteView>) -> bool {
    &&& ids_distinct(notes)
    &&& titles_present(notes)
}

/// The test that a note passes when its id is not `id`.
pub open spec fn other_than(id: Seq<char>) -> spec_fn(NoteView) -> bool {
    |n: NoteView| n.id != id
}

/// The notes after `note` was offered to a store that held `notes`: the
/// note is refused for an empty title, then for an id that is taken, and
/// otherwise stands at the end of the rest.
pub open spec fn inserted(notes: Seq<NoteView>, note: NoteView) -> Result<
    Seq<NoteView>,
    NotebookCliError,
> {
    if note.title.len() == 0 {
        Err(NotebookCliError::Validation)
    } else if holds_id(notes, note.id) {
        Err(NotebookCliError::Store)
    } else {
        Ok(notes.push(note))
    }
}

/// Whether `added` is a possible end of adding a note of the given parts,
/// under a random id, to a store that held `before` and holds `after`.
///
/// Where a note comes back, it has the given parts and an id of the random
/// shape that no note had before, and stands at the end of the rest. Where a
/// failure comes back the store is unchanged; the failure is that of an empty
/// title, or else that of the store, which can come only where a note of the
/// store has an id of the random shape already.
pub open spec fn is_added(
    before: Seq<NoteView>,
    after: Seq<NoteView>,
    title: Seq<char>,
    content: Seq<char>,
    created_at: u64,
    added: Result<Note, NotebookCliError>,
) -> bool {
    match added {
        Ok(note) => {
            &&& note@.title == title
            &&& note@.content == content
            &&& note@.created_at == created_at
            &&& is_uuid_text(note@.id)
            &&& inserted(before, note@) == Ok::<Seq<NoteView>, NotebookCliError>(after)
        },
        Err(e) => {
            &&& after == before
            &&& if title.len() == 0 {
                e == NotebookCliError::Validation
            } else {
                &&& e == NotebookCliError::Store
                &&& exists|i: int| 0 <= i < before.len() && is_uuid_text((#[trigger] before[i]).id)
            }
        },
    }
}

/// The notes after the note with the id `id` was taken out of `notes`, the
/// others in their order; a failure where no note has that id.
pub open spec fn removed(notes: Seq<NoteView>, id: Seq<char>) -> Result<
    Seq<NoteView>,
    NotebookCliError,
> {
    if holds_id(notes, id) {
        Ok(notes.filter(other_than(id)))
    } else {
        Err(NotebookCliError::NotFound)
    }
}

/// A sequence whose items all pass a test is its own filter by that test.
proof fn lemma_filter_keeps_all(notes: Seq<NoteView>, pred: spec_fn(NoteView) -> bool)
    requires
        forall|i: int| 0 <= i < notes.len() ==> pred(#[trigger] notes[i]),
    ensures
        notes.filter(pred) == notes,
    decreases notes.len(),
{
    reveal(Seq::filter);
    if notes.len() > 0 {
        lemma_filter_keeps_all(notes.drop_last(), pred);
        assert(notes.drop_last().push(notes.last()) =~= notes);
    }
}

/// Among distinct ids, removing by an id takes out the one note that has it,
/// and leaves the others where they stood before and behind it.
pub proof fn remove_takes_one_place(notes: Seq<NoteView>, id: Seq<char>, at: int)
    requires
        ids_distinct(notes),
        0 <= at < notes.len(),
        notes[at].id == id,
    ensures
        removed(notes, id) == Ok::<Seq<NoteView>, NotebookCliError>(notes.remove(at)),
{
    let pred = other_than(id);
    let before = notes.subrange(0, at);
    let here = seq![notes[at]];
    let after = notes.subrange(at + 1, notes.len() as int);
    assert(notes =~= before + here + after);
    Seq::filter_distributes_over_add(before + here, after, pred);
    Seq::filter_distributes_over_add(before, here, pred);
    assert forall|i: int| 0 <= i < before.len() implies pred(#[trigger] before[i]) by {
        assert(before[i] == notes[i]);
    }
    assert forall|i: int| 0 <= i < after.len() implies pred(#[trigger] after[i]) by {
        assert(after[i] == notes[at + 1 + i]);
    }
    lemma_filter_keeps_all(before, pred);
    lemma_filter_keeps_all(after, pred);
    assert(here.filter(pred) =~= Seq::<NoteView>::empty()) by {
        reveal_with_fuel(Seq::filter, 2);
        assert(here.drop_last() =~= Seq::<NoteView>::empty());
    }
    assert(before + Seq::<NoteView>::empty() + after =~= notes.remove(at));
}

/// Where the items of a filter stand in the filtered sequence: each at its
/// place, any two of them in the order that they have in the filter, and no
/// item that passes the test left out.
pub proof fn filter_places(notes: Seq<NoteView>, pred: spec_fn(NoteView) -> bool) -> (places:
    Seq<int>)
    ensures
        places.len() == notes.filter(pred).len(),
        forall|k: int|
            0 <= k < places.len() ==> 0 <= #[trigger] places[k] < notes.len() && notes[places[k]]
                == notes.filter(pred)[k],
        forall|k: int, l: int| 0 <= k < l < places.len() ==> places[k] < places[l],
        forall|i: int| 0 <= i < notes.len() && pred(#[trigger] notes[i]) ==> places.contains(i),
    decreases notes.len(),
{
    reveal(Seq::filter);
    if notes.len() == 0 {
        Seq::empty()
    } else {
        let shorter = filter_places(notes.drop_last(), pred);
        let places = if pred(notes.last()) {
            shorter.push(notes.len() - 1)
        } else {
            shorter
        };
        assert forall|i: int| 0 <= i < notes.len() && pred(#[trigger] notes[i]) implies
            places.contains(i) by {
            if i < notes.len() - 1 {
                assert(notes.drop_last()[i] == notes[i]);
                let k = choose|k: int| 0 <= k < shorter.len() && shorter[k] == i;
                assert(places[k] == i);
            } else {
                assert(places[places.len() - 1] == i);
            }
        }
        places
    }
}

/// Well-kept notes stay well kept under every filter.
pub proof fn filter_keeps_well_kept(notes: Seq<NoteView>, pred: spec_fn(NoteView) -> bool)
    requires
        well_kept(notes),
    ensures
        well_kept(notes.filter(pred)),
{
    let places = filter_places(notes, pred);
    let kept = notes.filter(pred);
    assert forall|i: int, j: int| 0 <= i < j < kept.len() implies (#[trigger] kept[i]).id != (
    #[trigger] kept[j]).id by {
        assert(notes[places[i]].id != notes[places[j]].id);
    }
    assert forall|i: int| 0 <= i < kept.len() implies (#[trigger] kept[i]).title.len() > 0 by {
        assert(notes[places[i]].title.len() > 0);
    }
}

/// A note with a title, offered under an id that no note has, is taken: the
/// store then lists what it listed before, in the same order, and behind it
/// the new note, which is the only one with its id. The notes stay well kept.
pub proof fn insert_lists_one_new_note(notes: Seq<NoteView>, note: NoteView)
    requires
        well_kept(notes),
        note.title.len() > 0,
        !holds_id(notes, note.id),
    ensures
        inserted(notes, note) matches Ok(after) && {
            &&& after.len() == notes.len() + 1
            &&& after.take(notes.len() as int) == notes
            &&& after.last() == note
            &&& forall|i: int|
                0 <= i < after.len() ==> ((#[trigger] after[i]).id == note.id <==> i == after.len()
                    - 1)
            &&& well_kept(after)
        },
{
    let after = notes.push(note);
    assert(after.take(notes.len() as int) =~= notes);
    assert forall|i: int| 0 <= i < after.len() implies ((#[trigger] after[i]).id == note.id <==> i
        == after.len() - 1) by {
        if i < notes.len() {
            assert(notes[i].id != note.id);
        }
    }
    assert forall|i: int, j: int| 0 <= i < j < after.len() implies (#[trigger] after[i]).id != (
    #[trigger] after[j]).id by {
        if j == notes.len() {
            assert(notes[i].id != note.id);
        }
    }
}

/// What `add` returns as a note is listed once: it stands at the end of what
/// the store listed before, carries the title and the content that were
/// given, and has an id that no other note of the store has.
pub proof fn added_note_is_listed_once(
    before: Seq<NoteView>,
    after: Seq<NoteView>,
    title: Seq<char>,
    content: Seq<char>,
    created_at: u64,
    note: Note,
)
    requires
        well_kept(before),
        is_added(before, after, title, content, created_at, Ok(note)),
    ensures
        title.len() > 0,
        after == before.push(note@),
        note@.title == title && note@.content == content,
        !holds_id(before, note@.id),
        forall|i: int|
            0 <= i < after.len() ==> ((#[trigger] after[i]).id == note@.id <==> i == after.len()
                - 1),
        well_kept(after),
{
    insert_lists_one_new_note(before, note@);
}

/// A note without a title is never taken, whatever its content and whatever
/// the store holds: the failure is that of an invalid input.
pub proof fn empty_title_is_refused(notes: Seq<NoteView>, note: NoteView)
    requires
        note.title.len() == 0,
    ensures
        inserted(notes, note) == Err::<Seq<NoteView>, NotebookCliError>(
            NotebookCliError::Validation,
        ),
{
}

/// Adding a note without a title fails as an invalid input and leaves the
/// store as it was, whatever the content.
pub proof fn add_refuses_empty_title(
    before: Seq<NoteView>,
    after: Seq<NoteView>,
    content: Seq<char>,
    created_at: u64,
    added: Result<Note, NotebookCliError>,
)
    requires
        is_added(before, after, Seq::<char>::empty(), content, created_at, added),
    ensures
        added == Err::<Note, NotebookCliError>(NotebookCliError::Validation),
        after == before,
{
}

/// Removing by an id that a note has succeeds. Of a well-kept store it takes
/// exactly that note: no note has the id afterwards, one note fewer is
/// listed, and every other note is still there.
pub proof fn remove_takes_the_note(notes: Seq<NoteView>, id: Seq<char>)
    requires
        well_kept(notes),
        holds_id(notes, id),
    ensures
        removed(notes, id) matches Ok(after) && {
            &&& !holds_id(after, id)
            &&& after.len() == notes.len() - 1
            &&& forall|i: int|
                0 <= i < notes.len() && (#[trigger] notes[i]).id != id ==> after.contains(notes[i])
            &&& well_kept(after)
        },
{
    let at = choose|i: int| 0 <= i < notes.len() && (#[trigger] notes[i]).id == id;
    let after = notes.filter(other_than(id));
    remove_takes_one_place(notes, id, at);
    filter_keeps_well_kept(notes, other_than(id));
    if holds_id(after, id) {
        let k = choose|k: int| 0 <= k < after.len() && (#[trigger] after[k]).id == id;
        notes.lemma_filter_pred(other_than(id), k);
    }
    assert forall|i: int| 0 <= i < notes.len() && (#[trigger] notes[i]).id != id implies
        after.contains(notes[i]) by {
        notes.lemma_filter_contains(other_than(id), i);
    }
}

/// Removing by an id that no note has fails, and names the id as not found.
pub proof fn remove_unknown_fails(notes: Seq<NoteView>, id: Seq<char>)
    requires
        !holds_id(notes, id),
    ensures
        removed(notes, id) == Err::<Seq<NoteView>, NotebookCliError>(NotebookCliError::NotFound),
{
}

/// A note that was just taken can be removed by its id, and the store is then
/// what it was before the note came: it no longer lists the note.
pub proof fn remove_undoes_insert(notes: Seq<NoteView>, note: NoteView)
    requires
        well_kept(notes),
        inserted(notes, note) is Ok,
    ensures
        removed(inserted(notes, note)->Ok_0, note.id) == Ok::<Seq<NoteView>, NotebookCliError>(
            notes,
        ),
        !holds_id(notes, note.id),
{
    let after = notes.push(note);
    assert(after[notes.len() as int].id == note.id);
    insert_lists_one_new_note(notes, note);
    remove_takes_one_place(after, note.id, notes.len() as int);
    assert(after.remove(notes.len() as int) =~= notes);
}

/// Two notes added one after the other with the same title and the same
/// content are two notes: their ids differ, and the store lists both.
pub proof fn twice_added_notes_differ(
    start: Seq<NoteView>,
    between: Seq<NoteView>,
    end: Seq<NoteView>,
    title: Seq<char>,
    content: Seq<char>,
    first_at: u64,
    second_at: u64,
    first: Note,
    second: Note,
)
    requires
        is_added(start, between, title, content, first_at, Ok(first)),
        is_added(between, end, title, content, second_at, Ok(second)),
    ensures
        first@.id != second@.id,
        end == start.push(first@).push(second@),
{
    assert(between[start.len() as int].id == first@.id);
}

} // verus!
