//! Capture of a new note from an editor: where the editor writes, how it is
//! called, and how the text that it saved parts into title and content.

use vstd::prelude::*;
use vstd::string::*;
use crate::error::NotebookCliError;
use crate::ident::{fresh_token, is_uuid_text};
use crate::text::chars_of;

verus! {

/// How a run of the editor ended, as the caller that ran it reports it.
#[derive(Debug, PartialEq, Eq)]
pub enum EditorEvent {
    /// The editor could not be started.
    LaunchFailed,
    /// The editor ran and ended with a failure status.
    Crashed,
    /// The editor ended well, but the scratch file could not be read.
    Unreadable,
    /// The editor ended well; this is the whole text of the scratch file.
    Saved(String),
}

/// Whether the first line break of `text` is at position `at`.
pub open spec fn is_first_break(text: Seq<char>, at: int) -> bool {
    &&& 0 <= at < text.len()
    &&& text[at] == '\n'
    &&& forall|j: int| 0 <= j < at ==> text[j] != '\n'
}

/// The position of the first line break of a text that holds one.
pub open spec fn first_break(text: Seq<char>) -> int {
    choose|at: int| is_first_break(text, at)
}

/// Title and content of a captured text: what stands before its first line
/// break, and all that stands behind it. A text without a line break has
/// neither.
pub open spec fn captured(text: Seq<char>) -> Result<(Seq<char>, Seq<char>), NotebookCliError> {
    if text.contains('\n') {
        Ok((text.take(first_break(text)), text.skip(first_break(text) + 1)))
    } else {
        Err(NotebookCliError::Format)
    }
}

/// What a run of the editor yields: title and content of the saved text, or
/// the failure that the run or the text stands for.
pub open spec fn yielded(event: EditorEvent) -> Result<(Seq<char>, Seq<char>), NotebookCliError> {
    match event {
        EditorEvent::LaunchFailed => Err(NotebookCliError::Launch),
        EditorEvent::Crashed => Err(NotebookCliError::EditorCrash),
        EditorEvent::Unreadable => Err(NotebookCliError::Io),
        EditorEvent::Saved(text) => captured(text@),
    }
}

/// The scratch file that belongs to the random identifier `token`.
pub open spec fn scratch_path_of(token: Seq<char>) -> Seq<char> {
    "/tmp/note_"@ + token + ".nb"@
}

/// The shell command that opens the editor on the file at `path`.
pub open spec fn editor_command_of(path: Seq<char>) -> Seq<char> {
    "vim "@ + path
}

/// A text has at most one first line break.
pub proof fn first_break_is_unique(text: Seq<char>, a: int, b: int)
    requires
        is_first_break(text, a),
        is_first_break(text, b),
    ensures
        a == b,
{
    if a < b {
        assert(text[a] != '\n');
    } else if b < a {
        assert(text[b] != '\n');
    }
}

/// A text with a line break at `at` has its first line break there or before.
pub proof fn first_break_is_found(text: Seq<char>, at: int)
    requires
        0 <= at < text.len(),
        text[at] == '\n',
    ensures
        is_first_break(text, first_break(text)),
        first_break(text) <= at,
    decreases at,
{
    if exists|j: int| 0 <= j < at && text[j] == '\n' {
        let j = choose|j: int| 0 <= j < at && text[j] == '\n';
        first_break_is_found(text, j);
    } else {
        assert(is_first_break(text, at));
        first_break_is_unique(text, at, first_break(text));
    }
}

/// A captured text is its title, one line break and its content, and the title
/// holds no line break: the split is at the first break, and loses nothing.
pub proof fn capture_keeps_text(text: Seq<char>)
    requires
        text.contains('\n'),
    ensures
        captured(text) matches Ok((title, content)) && text == title + seq!['\n'] + content
            && !title.contains('\n'),
{
    let k = choose|k: int| 0 <= k < text.len() && text[k] == '\n';
    first_break_is_found(text, k);
    let at = first_break(text);
    let title = text.take(at);
    let content = text.skip(at + 1);
    assert(text =~= title + seq!['\n'] + content);
    if title.contains('\n') {
        let j = choose|j: int| 0 <= j < title.len() && title[j] == '\n';
        assert(text[j] == '\n');
    }
}

/// Parts the text that an editor saved into title and content, at its first
/// line break. Fails where the text holds no line break: a note needs at
/// least a title line and a content section.
pub fn split_capture(text: &str) -> (parts: Result<(String, String), NotebookCliError>)
    ensures
        match captured(text@) {
            Ok((title, content)) => parts matches Ok(p) && p.0@ == title && p.1@ == content,
            Err(e) => parts == Err::<(String, String), NotebookCliError>(e),
        },
{
    let chars = chars_of(text);
    let mut at: usize = 0;
    while at < chars.len()
        invariant
            chars@ == text@,
            at <= chars.len(),
            forall|j: int| 0 <= j < at ==> text@[j] != '\n',
        decreases chars.len() - at,
    {
        if chars[at] == '\n' {
            proof {
                assert(is_first_break(text@, at as int));
                first_break_is_unique(text@, at as int, first_break(text@));
            }
            let title = text.substring_char(0, at).to_owned();
            let content = text.substring_char(at + 1, chars.len()).to_owned();
            return Ok((title, content));
        }
        at += 1;
    }
    Err(NotebookCliError::Format)
}

/// Turns the end of an editor run into title and content. A failed start, a
/// failure status and an unreadable file each give their own failure; a saved
/// text is parted at its first line break.
pub fn capture(event: EditorEvent) -> (parts: Result<(String, String), NotebookCliError>)
    ensures
        match yielded(event) {
            Ok((title, content)) => parts matches Ok(p) && p.0@ == title && p.1@ == content,
            Err(e) => parts == Err::<(String, String), NotebookCliError>(e),
        },
{
    match event {
        EditorEvent::LaunchFailed => Err(NotebookCliError::Launch),
        EditorEvent::Crashed => Err(NotebookCliError::EditorCrash),
        EditorEvent::Unreadable => Err(NotebookCliError::Io),
        EditorEvent::Saved(text) => split_capture(text.as_str()),
    }
}

/// Returns the path of the scratch file that belongs to `token`.
pub fn scratch_path(token: &str) -> (path: String)
    ensures
        path@ == scratch_path_of(token@),
{
    String::from_str("/tmp/note_").concat(token).concat(".nb")
}

/// Returns the shell command that opens the editor on the file at `path`.
pub fn editor_command(path: &str) -> (command: String)
    ensures
        command@ == editor_command_of(path@),
{
    String::from_str("vim ").concat(path)
}

/// Returns the path of a scratch file of its own for one run of the editor:
/// the path that belongs to a freshly drawn random identifier.
pub fn new_scratch_path() -> (path: String)
    ensures
        exists|token: Seq<char>| is_uuid_text(token) && path@ == #[trigger] scratch_path_of(token),
{
    let token = fresh_token();
    scratch_path(token.as_str())
}

} // verus!
