//! The commands of the notebook, and what each of them does to a store.

use vstd::prelude::*;
use crate::capture::{
    capture, editor_command, editor_command_of, new_scratch_path, scratch_path_of, yielded,
    EditorEvent,
};
use crate::error::NotebookCliError;
use crate::ident::is_uuid_text;
use crate::note::{views_of, Note, NoteView};
use crate::search::{found, search, Scope};
use crate::model::{is_added, removed, well_kept};
use crate::store::NoteStore;

verus! {

/// What an add command was given: a title and a content, or the wish to
/// compose the note in an editor.
#[derive(Debug, PartialEq, Eq)]
pub struct AddOpts {
    pub title: Option<String>,
    pub content: Option<String>,
    pub edit: bool,
}

/// What a remove command was given: the id of the note to take out.
#[derive(Debug, PartialEq, Eq)]
pub struct RmOpts {
    pub id: String,
}

/// What a search command was given: the query, and whether the content of a
/// note is searched beside its title.
#[derive(Debug, PartialEq, Eq)]
pub struct SearchOpts {
    pub all: bool,
    pub input: String,
}

/// The three commands.
#[derive(Debug, PartialEq, Eq)]
pub enum Subcommands {
    Add(AddOpts),
    Rm(RmOpts),
    Search(SearchOpts),
}

/// One call of the notebook: the command to carry out.
#[derive(Debug, PartialEq, Eq)]
pub struct NotebookCli {
    pub subcommands: Subcommands,
}

/// The two ways of composing a new note.
#[derive(Clone, Copy, Debug, PartialEq, Eq, Structural)]
pub enum AddMode {
    /// Title and content stand in the command.
    Inline,
    /// Title and content come from an editor.
    Edit,
}

/// What a command has done once it is through.
#[derive(Debug, PartialEq, Eq)]
pub enum Outcome {
    /// The note that was added, as the store holds it.
    Added(Note),
    /// The note with the given id is gone.
    Removed,
    /// The notes that the query matched; there may be none.
    Found(Vec<Note>),
}

/// The editor run that an add command asks its caller for.
#[derive(Debug, PartialEq, Eq)]
pub struct EditRequest {
    /// The scratch file that the editor is to write.
    pub path: String,
    /// The shell command that opens the editor on that file.
    pub command: String,
}

/// How far a command came without outside work.
#[derive(Debug, PartialEq, Eq)]
pub enum Step {
    /// The command is through.
    Finished(Outcome),
    /// The command needs a text from the editor. The caller runs the editor
    /// as asked, and hands what came of it to `finish_edit`.
    Edit(EditRequest),
}

/// The way of composing that an add command asks for. Exactly one must be
/// asked for: title and content both with no editor, or the editor with
/// neither of them.
pub open spec fn add_mode_of(opts: AddOpts) -> Result<AddMode, NotebookCliError> {
    if opts.edit {
        if opts.title is None && opts.content is None {
            Ok(AddMode::Edit)
        } else {
            Err(NotebookCliError::InvalidMode)
        }
    } else {
        if opts.title is Some && opts.content is Some {
            Ok(AddMode::Inline)
        } else {
            Err(NotebookCliError::InvalidMode)
        }
    }
}

/// The part of a note that a search command looks at.
pub open spec fn scope_of(all: bool) -> Scope {
    if all {
        Scope::TitleAndContent
    } else {
        Scope::TitleOnly
    }
}

/// Whether `request` asks for an editor run on a scratch file of a random
/// name, with the command that opens the editor on that very file.
pub open spec fn is_edit_request(request: EditRequest) -> bool {
    &&& exists|token: Seq<char>|
        is_uuid_text(token) && request.path@ == #[trigger] scratch_path_of(token)
    &&& request.command@ == editor_command_of(request.path@)
}

impl Outcome {
    /// Tells whether the command changed the notes of the store, so that they
    /// have to be written anew.
    pub fn changed_notes(&self) -> (changed: bool)
        ensures
            changed == (self is Added || self is Removed),
    {
        match self {
            Outcome::Added(_) => true,
            Outcome::Removed => true,
            Outcome::Found(_) => false,
        }
    }
}

impl AddOpts {
    /// Decides how the note of this command is composed. Fails where the
    /// command asks for both ways, for neither, or for a half of one.
    pub fn mode(&self) -> (mode: Result<AddMode, NotebookCliError>)
        ensures
            mode == add_mode_of(*self),
    {
        if self.edit {
            if self.title.is_none() && self.content.is_none() {
                Ok(AddMode::Edit)
            } else {
                Err(NotebookCliError::InvalidMode)
            }
        } else {
            if self.title.is_some() && self.content.is_some() {
                Ok(AddMode::Inline)
            } else {
                Err(NotebookCliError::InvalidMode)
            }
        }
    }
}

impl SearchOpts {
    /// The part of a note that this command looks at.
    pub fn scope(&self) -> (scope: Scope)
        ensures
            scope == scope_of(self.all),
    {
        if self.all {
            Scope::TitleAndContent
        } else {
            Scope::TitleOnly
        }
    }
}

impl NotebookCli {
    /// Carries out the command on `store`, as far as that goes without
    /// outside work; `now` is the time that a new note is stamped with.
    ///
    /// A remove and a search are through at once, and so is an add that
    /// brings title and content. An add that asks for the editor changes
    /// nothing yet: it returns the editor run that it needs. Every failure
    /// leaves the store as it was.
    pub fn run(&self, store: &mut NoteStore, now: u64) -> (step: Result<Step, NotebookCliError>)
        ensures
            well_kept(final(store)@),
            match self.subcommands {
                Subcommands::Add(opts) => match add_mode_of(opts) {
                    Err(e) => step == Err::<Step, NotebookCliError>(e) && final(store)@ == old(
                        store,
                    )@,
                    Ok(AddMode::Edit) => {
                        &&& final(store)@ == old(store)@
                        &&& step matches Ok(Step::Edit(request))
                        &&& is_edit_request(request)
                    },
                    Ok(AddMode::Inline) => match step {
                        Ok(Step::Finished(Outcome::Added(note))) => is_added(
                            old(store)@,
                            final(store)@,
                            opts.title->0@,
                            opts.content->0@,
                            now,
                            Ok(note),
                        ),
                        Ok(_) => false,
                        Err(e) => is_added(
                            old(store)@,
                            final(store)@,
                            opts.title->0@,
                            opts.content->0@,
                            now,
                            Err(e),
                        ),
                    },
                },
                Subcommands::Rm(opts) => match removed(old(store)@, opts.id@) {
                    Ok(notes) => {
                        &&& step matches Ok(Step::Finished(Outcome::Removed))
                        &&& final(store)@ == notes
                    },
                    Err(e) => step == Err::<Step, NotebookCliError>(e) && final(store)@ == old(
                        store,
                    )@,
                },
                Subcommands::Search(opts) => {
                    &&& final(store)@ == old(store)@
                    &&& step matches Ok(Step::Finished(Outcome::Found(hits)))
                    &&& views_of(hits@) == found(old(store)@, opts.input@, scope_of(opts.all))
                },
            },
    {
        proof {
            use_type_invariant(&*store);
        }
        match &self.subcommands {
            Subcommands::Add(opts) => {
                match opts.mode() {
                    Err(e) => Err(e),
                    Ok(AddMode::Edit) => {
                        let path = new_scratch_path();
                        let command = editor_command(path.as_str());
                        Ok(Step::Edit(EditRequest { path, command }))
                    },
                    Ok(AddMode::Inline) => {
                        let title = opts.title.as_ref().unwrap();
                        let content = opts.content.as_ref().unwrap();
                        match store.add(title.as_str(), content.as_str(), now) {
                            Ok(note) => Ok(Step::Finished(Outcome::Added(note))),
                            Err(e) => Err(e),
                        }
                    },
                }
            },
            Subcommands::Rm(opts) => {
                match store.remove(opts.id.as_str()) {
                    Ok(()) => Ok(Step::Finished(Outcome::Removed)),
                    Err(e) => Err(e),
                }
            },
            Subcommands::Search(opts) => {
                let hits = search(store, opts.input.as_str(), opts.scope());
                Ok(Step::Finished(Outcome::Found(hits)))
            },
        }
    }
}

/// Ends an add that asked for the editor: `event` is what came of the editor
/// run, `now` the time that the new note is stamped with.
///
/// A failure of the run comes back as it is, and so does the failure of a
/// saved text without a line break; the store is then unchanged. Otherwise
/// the note of the captured title and content is added to `store`.
pub fn finish_edit(store: &mut NoteStore, event: EditorEvent, now: u64) -> (done: Result<
    Outcome,
    NotebookCliError,
>)
    ensures
        well_kept(final(store)@),
        match yielded(event) {
            Err(e) => done == Err::<Outcome, NotebookCliError>(e) && final(store)@ == old(store)@,
            Ok((title, content)) => match done {
                Ok(Outcome::Added(note)) => is_added(
                    old(store)@,
                    final(store)@,
                    title,
                    content,
                    now,
                    Ok(note),
                ),
                Ok(_) => false,
                Err(e) => is_added(old(store)@, final(store)@, title, content, now, Err(e)),
            },
        },
{
    proof {
        use_type_invariant(&*store);
    }
    match capture(event) {
        Err(e) => Err(e),
        Ok((title, content)) => {
            match store.add(title.as_str(), content.as_str(), now) {
                Ok(note) => Ok(Outcome::Added(note)),
                Err(e) => Err(e),
            }
        },
    }
}

} // verus!
