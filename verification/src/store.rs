//! The store that owns the notes.

use vstd::prelude::*;
use crate::error::NotebookCliError;
use crate::ident::{fresh_token, is_uuid_text};
use crate::model::{
    filter_keeps_well_kept, holds_id, insert_lists_one_new_note, inserted, is_added, other_than,
    remove_takes_one_place, removed, well_kept,
};
use crate::note::{views_of, Note, NoteView};

verus! {

/// The notes of a notebook. The store alone holds them: what it hands out are
/// copies.
#[derive(Debug)]
pub struct NoteStore {
    notes: Vec<Note>,
}

impl View for NoteStore {
    type V = Seq<NoteView>;

    closed spec fn view(&self) -> Seq<NoteView> {
        views_of(self.notes@)
    }
}

impl NoteStore {
    /// What every store keeps to, whatever is done with it.
    #[verifier::type_invariant]
    pub open spec fn kept(self) -> bool {
        well_kept(self@)
    }

    /// Makes a store that holds no note.
    pub fn new() -> (store: NoteStore)
        ensures
            store@ == Seq::<NoteView>::empty(),
    {
        let store = NoteStore { notes: Vec::new() };
        assert(store@ =~= Seq::<NoteView>::empty());
        store
    }

    /// The number of notes in the store.
    pub fn len(&self) -> (n: usize)
        ensures
            n == self@.len(),
    {
        self.notes.len()
    }

    /// The note at place `at` of the store's order, if the store holds that
    /// many notes.
    pub fn get(&self, at: usize) -> (note: Option<&Note>)
        ensures
            match note {
                Some(n) => at < self@.len() && n@ == self@[at as int],
                None => at >= self@.len(),
            },
    {
        if at < self.notes.len() {
            Some(&self.notes[at])
        } else {
            None
        }
    }

    /// Finds the place of the note with the id `id`.
    fn position(&self, id: &String) -> (place: Option<usize>)
        ensures
            match place {
                Some(at) => at < self@.len() && self@[at as int].id == id@,
                None => !holds_id(self@, id@),
            },
    {
        let mut at: usize = 0;
        while at < self.notes.len()
            invariant
                at <= self.notes.len(),
                forall|j: int| 0 <= j < at ==> (#[trigger] self@[j]).id != id@,
            decreases self.notes.len() - at,
        {
            if self.notes[at].has_id(id) {
                return Some(at);
            }
            at += 1;
        }
        None
    }

    /// Tells whether a note with the id `id` is in the store.
    pub fn contains_id(&self, id: &str) -> (held: bool)
        ensures
            held == holds_id(self@, id@),
    {
        let id = id.to_owned();
        self.position(&id).is_some()
    }

    /// Stores a note of the given parts under the id `id`, and returns a copy
    /// of it. An empty title is refused as invalid; then an id that a note of
    /// the store already has is refused as a failure of the store. Where the
    /// note is refused the store stays as it was.
    pub fn insert(&mut self, id: &str, title: &str, content: &str, created_at: u64) -> (added:
        Result<Note, NotebookCliError>)
        ensures
            well_kept(final(self)@),
            match inserted(
                old(self)@,
                NoteView { id: id@, title: title@, content: content@, created_at },
            ) {
                Ok(notes) => added is Ok && final(self)@ == notes && added->Ok_0@ == notes.last(),
                Err(e) => added == Err::<Note, NotebookCliError>(e) && final(self)@ == old(self)@,
            },
    {
        proof {
            use_type_invariant(&*self);
        }
        if title.is_empty() {
            return Err(NotebookCliError::Validation);
        }
        let id = id.to_owned();
        if self.position(&id).is_some() {
            return Err(NotebookCliError::Store);
        }
        let note = Note::new(id, title.to_owned(), content.to_owned(), created_at);
        let copy = note.clone();
        let ghost before = self@;
        let mut notes: Vec<Note> = Vec::new();
        std::mem::swap(&mut self.notes, &mut notes);
        notes.push(note);
        proof {
            assert(views_of(notes@) =~= before.push(copy@));
            insert_lists_one_new_note(before, copy@);
        }
        self.notes = notes;
        proof {
            assert(self@ =~= before.push(copy@));
        }
        Ok(copy)
    }

    /// Stores a new note under a freshly drawn random id, and returns a copy
    /// of it. An empty title is refused as invalid. The id is drawn anew at
    /// each call; should the draw give an id that the store already holds, the
    /// note is refused as a failure of the store. Where the note is refused the
    /// store stays as it was.
    pub fn add(&mut self, title: &str, content: &str, created_at: u64) -> (added: Result<
        Note,
        NotebookCliError,
    >)
        ensures
            well_kept(final(self)@),
            is_added(old(self)@, final(self)@, title@, content@, created_at, added),
    {
        proof {
            use_type_invariant(&*self);
        }
        if title.is_empty() {
            return Err(NotebookCliError::Validation);
        }
        let id = fresh_token();
        let ghost before = self@;
        let added = self.insert(id.as_str(), title, content, created_at);
        proof {
            if added is Err {
                let at = choose|i: int| 0 <= i < before.len() && (#[trigger] before[i]).id == id@;
                assert(is_uuid_text(before[at].id));
            }
        }
        added
    }

    /// Takes the note with the id `id` out of the store. Fails, and leaves the
    /// store as it was, where no note has that id.
    pub fn remove(&mut self, id: &str) -> (done: Result<(), NotebookCliError>)
        ensures
            well_kept(final(self)@),
            match removed(old(self)@, id@) {
                Ok(notes) => done is Ok && final(self)@ == notes,
                Err(e) => done == Err::<(), NotebookCliError>(e) && final(self)@ == old(self)@,
            },
    {
        proof {
            use_type_invariant(&*self);
        }
        let id = id.to_owned();
        match self.position(&id) {
            None => Err(NotebookCliError::NotFound),
            Some(at) => {
                let ghost before = self@;
                let mut notes: Vec<Note> = Vec::new();
                std::mem::swap(&mut self.notes, &mut notes);
                notes.remove(at);
                proof {
                    assert(views_of(notes@) =~= before.remove(at as int));
                    remove_takes_one_place(before, id@, at as int);
                    filter_keeps_well_kept(before, other_than(id@));
                }
                self.notes = notes;
                Ok(())
            },
        }
    }

    /// Returns copies of all notes, in the order in which the store holds
    /// them. The order is the same at every call between two changes.
    pub fn list(&self) -> (notes: Vec<Note>)
        ensures
            views_of(notes@) == self@,
            well_kept(self@),
    {
        proof {
            use_type_invariant(self);
        }
        let mut notes: Vec<Note> = Vec::new();
        let mut at: usize = 0;
        while at < self.notes.len()
            invariant
                at <= self.notes.len(),
                views_of(notes@) == self@.subrange(0, at as int),
            decreases self.notes.len() - at,
        {
            let copy = self.notes[at].clone();
            let ghost before = notes@;
            notes.push(copy);
            proof {
                assert(views_of(notes@) =~= views_of(before).push(copy@));
                assert(self@.subrange(0, at + 1) =~= self@.subrange(0, at as int).push(self@[at as int]));
            }
            at += 1;
        }
        assert(self@.subrange(0, at as int) =~= self@);
        notes
    }
}

} // verus!
