//! Search over the notes of a store: which notes a query matches, and in
//! which order they are reported.

use vstd::prelude::*;
use vstd::string::*;
use crate::model::filter_places;
use crate::note::{views_of, Note, NoteView};
use crate::store::NoteStore;
use crate::text::{chars_of, contains_chars, lowercase, occurs_in, to_lowercase};

verus! {

/// The part of a note that a search looks at.
#[derive(Clone, Copy, Debug, PartialEq, Eq, Structural)]
pub enum Scope {
    /// The title alone.
    TitleOnly,
    /// The title with the content behind it.
    TitleAndContent,
}

/// The text of `note` that a search in `scope` looks at: the title, or the
/// title directly followed by the content.
pub open spec fn searched_text(note: NoteView, scope: Scope) -> Seq<char> {
    match scope {
        Scope::TitleOnly => note.title,
        Scope::TitleAndContent => note.title + note.content,
    }
}

/// Whether `query` matches `text`: the query is not empty, and its lower-case
/// form stands in the lower-case form of the text.
pub open spec fn query_matches(query: Seq<char>, text: Seq<char>) -> bool {
    &&& query.len() > 0
    &&& occurs_in(lowercase(query), lowercase(text))
}

/// The test that a note passes when `query` matches it in `scope`.
pub open spec fn matching(query: Seq<char>, scope: Scope) -> spec_fn(NoteView) -> bool {
    |n: NoteView| query_matches(query, searched_text(n, scope))
}

/// The notes of `notes` that `query` matches in `scope`, in their order.
pub open spec fn found(notes: Seq<NoteView>, query: Seq<char>, scope: Scope) -> Seq<NoteView> {
    notes.filter(matching(query, scope))
}

/// Tells whether the folded query `needle` stands in the text of `note` that
/// a search in `scope` looks at.
fn note_holds(note: &Note, needle: &Vec<char>, scope: Scope) -> (held: bool)
    ensures
        held == occurs_in(needle@, lowercase(searched_text(note@, scope))),
{
    let folded = match scope {
        Scope::TitleOnly => to_lowercase(note.title()),
        Scope::TitleAndContent => {
            let text = String::from_str(note.title()).concat(note.content());
            to_lowercase(text.as_str())
        },
    };
    let hay = chars_of(folded.as_str());
    contains_chars(&hay, needle)
}

/// Tells whether `query` matches `note` in `scope`, whatever the case of
/// their letters. The empty query matches no note.
pub fn note_matches(note: &Note, query: &str, scope: Scope) -> (matched: bool)
    ensures
        matched == query_matches(query@, searched_text(note@, scope)),
{
    if query.is_empty() {
        return false;
    }
    let needle = chars_of(to_lowercase(query).as_str());
    note_holds(note, &needle, scope)
}

/// Returns copies of the notes of `store` that `query` matches in `scope`,
/// in the order in which the store lists them. No note matches the empty
/// query; that no note matches is no failure.
pub fn search(store: &NoteStore, query: &str, scope: Scope) -> (hits: Vec<Note>)
    ensures
        views_of(hits@) == found(store@, query@, scope),
{
    let wanted = !query.is_empty();
    let needle = chars_of(to_lowercase(query).as_str());
    let mut hits: Vec<Note> = Vec::new();
    let count = store.len();
    let mut at: usize = 0;
    proof {
        reveal(Seq::filter);
        assert(store@.subrange(0, 0) =~= Seq::<NoteView>::empty());
        assert(views_of(hits@) =~= Seq::<NoteView>::empty());
    }
    while at < count
        invariant
            count == store@.len(),
            at <= count,
            wanted == (query@.len() > 0),
            needle@ == lowercase(query@),
            views_of(hits@) == found(store@.subrange(0, at as int), query@, scope),
        decreases count - at,
    {
        let note = store.get(at).unwrap();
        let ghost seen = store@.subrange(0, at as int);
        proof {
            assert(store@.subrange(0, at + 1) =~= seen.push(note@));
            seen.lemma_filter_push(note@, matching(query@, scope));
        }
        if wanted && note_holds(note, &needle, scope) {
            let copy = note.clone();
            let ghost before = hits@;
            hits.push(copy);
            assert(views_of(hits@) =~= views_of(before).push(copy@));
        }
        at += 1;
    }
    assert(store@.subrange(0, at as int) =~= store@);
    hits
}

/// What a search finds are the notes that its query matches, in the order of
/// the list: `places` tells for each note found where the list has it. The
/// places rise, every note at one of them matches, and every place of a note
/// that matches is among them.
pub proof fn found_keeps_order(notes: Seq<NoteView>, query: Seq<char>, scope: Scope) -> (places:
    Seq<int>)
    ensures
        places.len() == found(notes, query, scope).len(),
        forall|k: int|
            0 <= k < places.len() ==> {
                &&& 0 <= #[trigger] places[k] < notes.len()
                &&& found(notes, query, scope)[k] == notes[places[k]]
                &&& query_matches(query, searched_text(notes[places[k]], scope))
            },
        forall|k: int, l: int| 0 <= k < l < places.len() ==> places[k] < places[l],
        forall|i: int|
            0 <= i < notes.len() && query_matches(query, searched_text(#[trigger] notes[i], scope))
                ==> places.contains(i),
{
    let pred = matching(query, scope);
    let places = filter_places(notes, pred);
    assert forall|k: int| 0 <= k < places.len() implies query_matches(
        query,
        searched_text(notes[#[trigger] places[k]], scope),
    ) by {
        notes.lemma_filter_pred(pred, k);
    }
    assert forall|i: int|
        0 <= i < notes.len() && query_matches(
            query,
            searched_text(#[trigger] notes[i], scope),
        ) implies places.contains(i) by {
        assert(pred(notes[i]));
    }
    places
}

/// No note matches the empty query, whatever the store holds.
pub proof fn empty_query_finds_nothing(notes: Seq<NoteView>, scope: Scope)
    ensures
        found(notes, Seq::<char>::empty(), scope) == Seq::<NoteView>::empty(),
{
    let pred = matching(Seq::<char>::empty(), scope);
    assert(notes.all(|n: NoteView| !pred(n)));
    notes.lemma_all_neg_filter_empty(pred);
    assert(notes.filter(pred) =~= Seq::<NoteView>::empty());
}

} // verus!
