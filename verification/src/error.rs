//! The ways in which a notebook operation can fail.

use vstd::prelude::*;

verus! {

/// Every failure that the notebook reports. Each operation names the kind of
/// its failure; no kind stands in for another.
#[derive(Clone, Copy, Debug, PartialEq, Eq, Structural)]
pub enum NotebookCliError {
    /// An input was missing or empty where a value is required.
    Validation,
    /// No note carries the id that the operation was given.
    NotFound,
    /// An add request named both ways of composing a note, or neither.
    InvalidMode,
    /// The editor could not be started.
    Launch,
    /// The editor ended with a failure status.
    EditorCrash,
    /// The text that the editor saved could not be read back.
    Io,
    /// The stored notes are unreadable, or the store cannot take the note.
    Store,
    /// The captured text has no line break between title and content.
    Format,
}

impl NotebookCliError {
    /// The process exit code that stands for this kind of failure.
    pub open spec fn spec_exit_code(self) -> i32 {
        match self {
            NotebookCliError::Validation => 2,
            NotebookCliError::NotFound => 3,
            NotebookCliError::InvalidMode => 4,
            NotebookCliError::Launch => 5,
            NotebookCliError::EditorCrash => 6,
            NotebookCliError::Io => 7,
            NotebookCliError::Store => 8,
            NotebookCliError::Format => 9,
        }
    }

    /// Returns the exit code of this failure: never zero, which is kept for
    /// success, and different for different kinds.
    #[verifier::when_used_as_spec(spec_exit_code)]
    pub fn exit_code(self) -> (code: i32)
        ensures
            code == self.spec_exit_code(),
            code != 0,
    {
        match self {
            NotebookCliError::Validation => 2,
            NotebookCliError::NotFound => 3,
            NotebookCliError::InvalidMode => 4,
            NotebookCliError::Launch => 5,
            NotebookCliError::EditorCrash => 6,
            NotebookCliError::Io => 7,
            NotebookCliError::Store => 8,
            NotebookCliError::Format => 9,
        }
    }

    /// What a reader is told of this kind of failure.
    pub open spec fn spec_message(self) -> Seq<char> {
        match self {
            NotebookCliError::Validation => "a note needs a title that is not empty"@,
            NotebookCliError::NotFound => "no note has this id"@,
            NotebookCliError::InvalidMode =>
                "give a title and a content, or ask for the editor, but not both"@,
            NotebookCliError::Launch => "the editor could not be started"@,
            NotebookCliError::EditorCrash => "the editor ended with a failure"@,
            NotebookCliError::Io => "the text that the editor saved could not be read"@,
            NotebookCliError::Store => "the stored notes could not be read or written"@,
            NotebookCliError::Format =>
                "at least a title line and a content section are required"@,
        }
    }

    /// Returns the sentence that tells a reader what went wrong.
    pub fn message(self) -> (text: String)
        ensures
            text@ == self.spec_message(),
    {
        let text = match self {
            NotebookCliError::Validation => "a note needs a title that is not empty",
            NotebookCliError::NotFound => "no note has this id",
            NotebookCliError::InvalidMode =>
                "give a title and a content, or ask for the editor, but not both",
            NotebookCliError::Launch => "the editor could not be started",
            NotebookCliError::EditorCrash => "the editor ended with a failure",
            NotebookCliError::Io => "the text that the editor saved could not be read",
            NotebookCliError::Store => "the stored notes could not be read or written",
            NotebookCliError::Format => "at least a title line and a content section are required",
        };
        text.to_owned()
    }

    /// Different kinds of failure never share an exit code, and none of them
    /// has the code of success.
    pub proof fn exit_codes_are_distinct(a: NotebookCliError, b: NotebookCliError)
        ensures
            a.spec_exit_code() != 0,
            a.spec_exit_code() == b.spec_exit_code() <==> a == b,
    {
    }
}

} // verus!
