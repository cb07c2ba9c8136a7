use notebook_cli::capture::{editor_command, new_scratch_path, scratch_path};
use notebook_cli::{capture, split_capture, EditorEvent, NotebookCliError};

fn parts(title: &str, content: &str) -> Result<(String, String), NotebookCliError> {
    Ok((title.to_string(), content.to_string()))
}

#[test]
fn editor_capture() {
    assert_eq!(
        split_capture("My Title\nLine one\nLine two"),
        parts("My Title", "Line one\nLine two")
    );
    assert_eq!(split_capture("Just one line"), Err(NotebookCliError::Format));
}

#[test]
fn split_capture_needs_a_line_break() {
    assert_eq!(split_capture(""), Err(NotebookCliError::Format));
    assert_eq!(split_capture("title only\r"), Err(NotebookCliError::Format));
}

#[test]
fn split_capture_parts_at_the_first_break_only() {
    assert_eq!(split_capture("t\n"), parts("t", ""));
    assert_eq!(split_capture("\n"), parts("", ""));
    assert_eq!(split_capture("\nbody"), parts("", "body"));
    assert_eq!(split_capture("t\n\nbody\n"), parts("t", "\nbody\n"));
    assert_eq!(split_capture("a\r\nb"), parts("a\r", "b"));
}

#[test]
fn split_capture_counts_characters_not_bytes() {
    assert_eq!(split_capture("Übung ✓\nzwölf"), parts("Übung ✓", "zwölf"));
}

#[test]
fn capture_of_a_saved_text_parts_it() {
    assert_eq!(
        capture(EditorEvent::Saved("My Title\nLine one\nLine two".to_string())),
        parts("My Title", "Line one\nLine two")
    );
    assert_eq!(
        capture(EditorEvent::Saved("Just one line".to_string())),
        Err(NotebookCliError::Format)
    );
}

#[test]
fn capture_hands_each_failure_of_the_run_on() {
    assert_eq!(capture(EditorEvent::LaunchFailed), Err(NotebookCliError::Launch));
    assert_eq!(capture(EditorEvent::Crashed), Err(NotebookCliError::EditorCrash));
    assert_eq!(capture(EditorEvent::Unreadable), Err(NotebookCliError::Io));
}

#[test]
fn scratch_path_holds_the_token() {
    assert_eq!(scratch_path("abc"), "/tmp/note_abc.nb");
    assert_eq!(scratch_path(""), "/tmp/note_.nb");
}

#[test]
fn editor_command_opens_the_path() {
    assert_eq!(editor_command("/tmp/note_abc.nb"), "vim /tmp/note_abc.nb");
}

#[test]
fn new_scratch_path_has_a_random_name() {
    let path = new_scratch_path();
    assert!(path.starts_with("/tmp/note_"));
    assert!(path.ends_with(".nb"));
    assert_eq!(path.len(), 49);
    let token = &path[10..46];
    for (i, c) in token.chars().enumerate() {
        match i {
            8 | 13 | 18 | 23 => assert_eq!(c, '-'),
            _ => assert!(c.is_ascii_digit() || ('a'..='f').contains(&c), "{} at {}", c, i),
        }
    }
    assert_eq!(token.as_bytes()[14], b'4');
    assert!(matches!(token.as_bytes()[19], b'8' | b'9' | b'a' | b'b'));
}

#[test]
fn new_scratch_paths_differ() {
    assert_ne!(new_scratch_path(), new_scratch_path());
}
