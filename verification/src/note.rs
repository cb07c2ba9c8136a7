//! A note: a title and a content under an id, with the time of its creation.

use vstd::prelude::*;

verus! {

/// What a note holds, as plain values.
pub struct NoteView {
    pub id: Seq<char>,
    pub title: Seq<char>,
    pub content: Seq<char>,
    pub created_at: u64,
}

/// One stored note. Its parts are set when the note is made and never change;
/// a note handed out by a store is a copy.
#[derive(Debug, PartialEq, Eq)]
pub struct Note {
    id: String,
    title: String,
    content: String,
    created_at: u64,
}

impl View for Note {
    type V = NoteView;

    closed spec fn view(&self) -> NoteView {
        NoteView {
            id: self.id@,
            title: self.title@,
            content: self.content@,
            created_at: self.created_at,
        }
    }
}

impl Clone for Note {
    fn clone(&self) -> (copy: Self)
        ensures
            copy@ == self@,
    {
        Note {
            id: self.id.clone(),
            title: self.title.clone(),
            content: self.content.clone(),
            created_at: self.created_at,
        }
    }
}

impl Note {
    /// Makes a note of the given parts.
    pub(crate) fn new(id: String, title: String, content: String, created_at: u64) -> (note: Note)
        ensures
            note@ == (NoteView { id: id@, title: title@, content: content@, created_at }),
    {
        Note { id, title, content, created_at }
    }

    /// Tells whether the note is stored under the id `id`.
    pub(crate) fn has_id(&self, id: &String) -> (same: bool)
        ensures
            same == (self@.id == id@),
    {
        self.id.eq(id)
    }

    /// The id under which the note is stored.
    pub fn id(&self) -> (id: &str)
        ensures
            id@ == self@.id,
    {
        self.id.as_str()
    }

    /// The note's title.
    pub fn title(&self) -> (title: &str)
        ensures
            title@ == self@.title,
    {
        self.title.as_str()
    }

    /// The note's content, which may be empty.
    pub fn content(&self) -> (content: &str)
        ensures
            content@ == self@.content,
    {
        self.content.as_str()
    }

    /// The time at which the note was made.
    pub fn created_at(&self) -> (at: u64)
        ensures
            at == self@.created_at,
    {
        self.created_at
    }
}

/// The plain values of a sequence of notes, in the same order.
pub open spec fn views_of(notes: Seq<Note>) -> Seq<NoteView> {
    notes.map_values(|n: Note| n@)
}

} // verus!
