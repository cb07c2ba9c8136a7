use notebook_cli::NotebookCliError;

const ALL: [NotebookCliError; 8] = [
    NotebookCliError::Validation,
    NotebookCliError::NotFound,
    NotebookCliError::InvalidMode,
    NotebookCliError::Launch,
    NotebookCliError::EditorCrash,
    NotebookCliError::Io,
    NotebookCliError::Store,
    NotebookCliError::Format,
];

#[test]
fn exit_codes_are_not_zero() {
    for e in ALL {
        assert_ne!(e.exit_code(), 0, "{:?}", e);
    }
}

#[test]
fn exit_codes_differ_by_kind() {
    for a in ALL {
        for b in ALL {
            assert_eq!(a.exit_code() == b.exit_code(), a == b, "{:?} and {:?}", a, b);
        }
    }
}

#[test]
fn exit_code_of_each_kind() {
    assert_eq!(NotebookCliError::Validation.exit_code(), 2);
    assert_eq!(NotebookCliError::NotFound.exit_code(), 3);
    assert_eq!(NotebookCliError::InvalidMode.exit_code(), 4);
    assert_eq!(NotebookCliError::Launch.exit_code(), 5);
    assert_eq!(NotebookCliError::EditorCrash.exit_code(), 6);
    assert_eq!(NotebookCliError::Io.exit_code(), 7);
    assert_eq!(NotebookCliError::Store.exit_code(), 8);
    assert_eq!(NotebookCliError::Format.exit_code(), 9);
}

#[test]
fn message_of_each_kind() {
    assert_eq!(
        NotebookCliError::Format.message(),
        "at least a title line and a content section are required"
    );
    assert_eq!(NotebookCliError::NotFound.message(), "no note has this id");
    for e in ALL {
        assert!(!e.message().is_empty(), "{:?}", e);
        assert!(!e.message().ends_with('.'), "{:?}", e);
    }
}
