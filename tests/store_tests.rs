use laydown::record::{Category, Standup};
use laydown::store::{
    after_decode, after_migration, first_step, frame, insert_empty_history, DecodeError,
    LoadError, LoadStep, MISSING_HISTORY,
};

const LEGACY: &str = "// Do not rename or delete arrays. Only update elements.\n(\n    did: [\"a\"],\n    doing: [],\n    blockers: [],\n    sidebars: [],\n)";

#[test]
fn frame_puts_the_warning_first() {
    assert_eq!(
        frame("(did: [])"),
        "// Do not rename or delete arrays. Only update elements.\n(did: [])"
    );
}

#[test]
fn empty_file_starts_afresh() {
    assert!(matches!(first_step(""), LoadStep::Create));
    assert!(matches!(first_step("x"), LoadStep::Decode));
    assert!(matches!(first_step(" "), LoadStep::Decode));
}

#[test]
fn clear_then_load_gives_empty_record() {
    let cleared = String::new();
    assert!(matches!(first_step(&cleared), LoadStep::Create));
    let s = Standup::new();
    assert!(s.did.is_empty() && s.history.is_empty());
}

#[test]
fn decoded_record_is_ready() {
    let mut s = Standup::new();
    s.add_item(Category::Did, "a".to_string());
    match after_decode("text", Ok(s)) {
        LoadStep::Ready(r) => {
            assert_eq!(r.did, vec!["a".to_string()]);
            assert_eq!(r.history.len(), 1);
        }
        _ => panic!("expected a ready record"),
    }
}

#[test]
fn non_record_text_gives_empty_record() {
    match after_decode("42", Err(DecodeError::ExpectedStruct)) {
        LoadStep::Ready(r) => assert!(r.did.is_empty() && r.history.is_empty()),
        _ => panic!("expected an empty record"),
    }
}

#[test]
fn text_without_a_record_gives_empty_record() {
    let text = "// Do not rename or delete arrays. Only update elements.\n";
    match after_decode(text, Err(DecodeError::EmptyInput)) {
        LoadStep::Ready(r) => assert!(r.did.is_empty() && r.history.is_empty()),
        _ => panic!("expected an empty record"),
    }
    assert!(matches!(
        after_migration(Err(DecodeError::EmptyInput)),
        Err(LoadError::Unrecoverable(_))
    ));
}

#[test]
fn history_goes_after_the_last_comma() {
    assert_eq!(
        insert_empty_history("(a: [1, 2],\n)").unwrap(),
        "(a: [1, 2],history: [],\n\n)"
    );
    assert_eq!(insert_empty_history("(a: [])"), None);
    assert_eq!(insert_empty_history(",").unwrap(), ",history: [],\n");
}

#[test]
fn legacy_file_is_migrated() {
    let step = after_decode(LEGACY, Err(DecodeError::Message(MISSING_HISTORY.to_string())));
    match step {
        LoadStep::Migrate(text) => {
            assert!(text.ends_with("    sidebars: [],history: [],\n\n)"));
            assert!(text.starts_with("// Do not rename"));
            let mut s = Standup::new();
            s.did.push("a".to_string());
            let r = after_migration(Ok(s)).unwrap();
            assert_eq!(r.did, vec!["a".to_string()]);
            assert!(r.history.is_empty());
        }
        _ => panic!("expected a migration"),
    }
}

#[test]
fn legacy_shape_without_separator_fails() {
    let step = after_decode("()", Err(DecodeError::Message(MISSING_HISTORY.to_string())));
    assert!(matches!(step, LoadStep::Fail(LoadError::NoSeparator)));
}

#[test]
fn other_missing_field_fails() {
    let msg = "missing field `blockers`".to_string();
    match after_decode(LEGACY, Err(DecodeError::Message(msg))) {
        LoadStep::Fail(LoadError::Corrupt(m)) => assert_eq!(m, "missing field `blockers`"),
        _ => panic!("expected a failure"),
    }
}

#[test]
fn syntax_error_fails() {
    match after_decode("(did: [", Err(DecodeError::Other("unexpected end".to_string()))) {
        LoadStep::Fail(LoadError::Corrupt(m)) => assert_eq!(m, "unexpected end"),
        _ => panic!("expected a failure"),
    }
}

#[test]
fn failed_migration_is_unrecoverable() {
    let r = after_migration(Err(DecodeError::Message("missing field `did`".to_string())));
    match r {
        Err(LoadError::Unrecoverable(m)) => assert_eq!(m, "missing field `did`"),
        _ => panic!("expected an unrecoverable failure"),
    }
    assert!(matches!(
        after_migration(Err(DecodeError::ExpectedStruct)),
        Err(LoadError::Unrecoverable(_))
    ));
}
