use notebook_cli::{
    finish_edit, AddMode, AddOpts, EditorEvent, NoteStore, NotebookCli, NotebookCliError, Outcome,
    RmOpts, Scope, SearchOpts, Step, Subcommands,
};

fn add(title: Option<&str>, content: Option<&str>, edit: bool) -> NotebookCli {
    NotebookCli {
        subcommands: Subcommands::Add(AddOpts {
            title: title.map(|t| t.to_string()),
            content: content.map(|c| c.to_string()),
            edit,
        }),
    }
}

fn rm(id: &str) -> NotebookCli {
    NotebookCli { subcommands: Subcommands::Rm(RmOpts { id: id.to_string() }) }
}

fn find(input: &str, all: bool) -> NotebookCli {
    NotebookCli { subcommands: Subcommands::Search(SearchOpts { all, input: input.to_string() }) }
}

fn added(step: Result<Step, NotebookCliError>) -> notebook_cli::Note {
    match step {
        Ok(Step::Finished(Outcome::Added(note))) => note,
        other => panic!("no note was added: {:?}", other),
    }
}

#[test]
fn end_to_end() {
    let mut store = NoteStore::new();
    let first = added(add(Some("A"), Some("b"), false).run(&mut store, 1));
    let second = added(add(Some("C"), Some("d"), false).run(&mut store, 2));
    assert_eq!(first.title(), "A");
    assert_eq!(first.content(), "b");
    assert_eq!(second.title(), "C");
    assert_eq!(second.content(), "d");
    assert_eq!(
        find("a", false).run(&mut store, 3),
        Ok(Step::Finished(Outcome::Found(vec![first.clone()])))
    );
    assert_eq!(rm(first.id()).run(&mut store, 4), Ok(Step::Finished(Outcome::Removed)));
    assert_eq!(store.list(), vec![second]);
    assert_eq!(rm(first.id()).run(&mut store, 5), Err(NotebookCliError::NotFound));
    assert_eq!(store.len(), 1);
}

#[test]
fn end_to_end_on_the_store() {
    let mut store = NoteStore::new();
    let first = store.add("A", "b", 1).unwrap();
    let second = store.add("C", "d", 2).unwrap();
    assert_eq!(notebook_cli::search(&store, "a", Scope::TitleOnly), vec![first.clone()]);
    assert_eq!(store.remove(first.id()), Ok(()));
    assert_eq!(store.list(), vec![second]);
    assert_eq!(store.remove(first.id()), Err(NotebookCliError::NotFound));
}

#[test]
fn add_stamps_the_note_with_the_given_time() {
    let mut store = NoteStore::new();
    let note = added(add(Some("A"), Some("b"), false).run(&mut store, 1_700_000_000));
    assert_eq!(note.created_at(), 1_700_000_000);
    assert_eq!(store.list(), vec![note]);
}

#[test]
fn add_with_an_empty_title_is_invalid() {
    let mut store = NoteStore::new();
    assert_eq!(
        add(Some(""), Some("content"), false).run(&mut store, 1),
        Err(NotebookCliError::Validation)
    );
    assert_eq!(store.len(), 0);
}

#[test]
fn add_needs_exactly_one_mode() {
    let mut store = NoteStore::new();
    let invalid = Err(NotebookCliError::InvalidMode);
    assert_eq!(add(None, None, false).run(&mut store, 1), invalid);
    assert_eq!(add(Some("t"), Some("c"), true).run(&mut store, 1), invalid);
    assert_eq!(add(Some("t"), None, false).run(&mut store, 1), invalid);
    assert_eq!(add(None, Some("c"), false).run(&mut store, 1), invalid);
    assert_eq!(add(Some("t"), None, true).run(&mut store, 1), invalid);
    assert_eq!(add(None, Some("c"), true).run(&mut store, 1), invalid);
    assert_eq!(store.len(), 0);
}

#[test]
fn mode_of_an_add_command() {
    let mode = |cli: NotebookCli| match cli.subcommands {
        Subcommands::Add(opts) => opts.mode(),
        _ => unreachable!(),
    };
    assert_eq!(mode(add(Some("t"), Some("c"), false)), Ok(AddMode::Inline));
    assert_eq!(mode(add(Some(""), Some(""), false)), Ok(AddMode::Inline));
    assert_eq!(mode(add(None, None, true)), Ok(AddMode::Edit));
    assert_eq!(mode(add(None, None, false)), Err(NotebookCliError::InvalidMode));
    assert_eq!(mode(add(Some("t"), Some("c"), true)), Err(NotebookCliError::InvalidMode));
}

#[test]
fn add_in_edit_mode_asks_for_the_editor() {
    let mut store = NoteStore::new();
    let request = match add(None, None, true).run(&mut store, 1) {
        Ok(Step::Edit(request)) => request,
        other => panic!("no editor run was asked for: {:?}", other),
    };
    assert!(request.path.starts_with("/tmp/note_"));
    assert!(request.path.ends_with(".nb"));
    assert_eq!(request.path.len(), 49);
    assert_eq!(request.command, format!("vim {}", request.path));
    assert_eq!(store.len(), 0);
}

#[test]
fn finish_edit_adds_the_captured_note() {
    let mut store = NoteStore::new();
    let event = EditorEvent::Saved("My Title\nLine one\nLine two".to_string());
    let note = match finish_edit(&mut store, event, 9) {
        Ok(Outcome::Added(note)) => note,
        other => panic!("no note was added: {:?}", other),
    };
    assert_eq!(note.title(), "My Title");
    assert_eq!(note.content(), "Line one\nLine two");
    assert_eq!(note.created_at(), 9);
    assert_eq!(store.list(), vec![note]);
}

#[test]
fn finish_edit_hands_each_failure_on() {
    let mut store = NoteStore::new();
    assert_eq!(
        finish_edit(&mut store, EditorEvent::LaunchFailed, 1),
        Err(NotebookCliError::Launch)
    );
    assert_eq!(
        finish_edit(&mut store, EditorEvent::Crashed, 1),
        Err(NotebookCliError::EditorCrash)
    );
    assert_eq!(finish_edit(&mut store, EditorEvent::Unreadable, 1), Err(NotebookCliError::Io));
    assert_eq!(
        finish_edit(&mut store, EditorEvent::Saved("Just one line".to_string()), 1),
        Err(NotebookCliError::Format)
    );
    assert_eq!(
        finish_edit(&mut store, EditorEvent::Saved("\nno title".to_string()), 1),
        Err(NotebookCliError::Validation)
    );
    assert_eq!(store.len(), 0);
}

#[test]
fn rm_of_an_unknown_id_is_not_found() {
    let mut store = NoteStore::new();
    store.add("A", "b", 1).unwrap();
    assert_eq!(rm("nothing").run(&mut store, 2), Err(NotebookCliError::NotFound));
    assert_eq!(store.len(), 1);
}

#[test]
fn search_looks_at_the_content_only_when_asked() {
    let mut store = NoteStore::new();
    let note = store.add("Shopping List", "milk, eggs", 1).unwrap();
    let nothing = Ok(Step::Finished(Outcome::Found(vec![])));
    let hit = Ok(Step::Finished(Outcome::Found(vec![note])));
    assert_eq!(find("shop", false).run(&mut store, 2), hit);
    assert_eq!(find("milk", true).run(&mut store, 2), hit);
    assert_eq!(find("milk", false).run(&mut store, 2), nothing);
    assert_eq!(find("", true).run(&mut store, 2), nothing);
    assert_eq!(find("butter", true).run(&mut store, 2), nothing);
}

#[test]
fn scope_of_a_search_command() {
    assert_eq!(SearchOpts { all: false, input: String::new() }.scope(), Scope::TitleOnly);
    assert_eq!(SearchOpts { all: true, input: String::new() }.scope(), Scope::TitleAndContent);
}

#[test]
fn only_add_and_rm_change_the_notes() {
    let mut store = NoteStore::new();
    let note = store.add("A", "b", 1).unwrap();
    assert!(Outcome::Added(note.clone()).changed_notes());
    assert!(Outcome::Removed.changed_notes());
    assert!(!Outcome::Found(vec![note]).changed_notes());
    assert!(!Outcome::Found(vec![]).changed_notes());
}
