//! A notebook of short text notes: the notes, the store that keeps them, the
//! search over them, and the capture of a new note from an editor's text.

pub mod capture;
pub mod cli;
pub mod codec;
pub mod error;
pub mod ident;
pub mod model;
pub mod note;
pub mod search;
pub mod store;
pub mod text;

pub use crate::capture::{capture, split_capture, EditorEvent};
pub use crate::cli::{
    finish_edit, AddMode, AddOpts, EditRequest, NotebookCli, Outcome, RmOpts, SearchOpts, Step,
    Subcommands,
};
pub use crate::codec::{decode, encode};
pub use crate::error::NotebookCliError;
pub use crate::note::Note;
pub use crate::search::{search, Scope};
pub use crate::store::NoteStore;
