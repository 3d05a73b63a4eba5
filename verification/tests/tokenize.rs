//! The action tokenizer and the placeholder vocabulary.

use git_hooks::shell::tokenize;
use git_hooks::tokens::ActionFileToken;

#[test]
fn tokenize_root_and_literal() {
    let (cmd, tokens) = tokenize("fmt {root} --check").unwrap();
    assert_eq!(cmd, "fmt".to_string());
    assert_eq!(tokens, vec!["{root}".to_string(), "--check".to_string()]);
    assert_eq!(
        ActionFileToken::from_str(&tokens[0]),
        Some(ActionFileToken::Root)
    );
    assert_eq!(ActionFileToken::from_str(&tokens[1]), None);
}

#[test]
fn tokenize_respects_quoting() {
    let (cmd, tokens) = tokenize("run 'a b' \"c d\" e").unwrap();
    assert_eq!(cmd, "run".to_string());
    assert_eq!(
        tokens,
        vec!["a b".to_string(), "c d".to_string(), "e".to_string()]
    );
}

#[test]
fn tokenize_empty_action_yields_nothing() {
    assert!(tokenize("").is_none());
    assert!(tokenize("   ").is_none());
}

#[test]
fn placeholder_vocabulary() {
    assert_eq!(
        ActionFileToken::from_str("{files}"),
        Some(ActionFileToken::Files)
    );
    assert_eq!(
        ActionFileToken::from_str("{file}"),
        Some(ActionFileToken::File)
    );
    assert_eq!(
        ActionFileToken::from_str("{changed_files}"),
        Some(ActionFileToken::ChangedFiles)
    );
    assert_eq!(
        ActionFileToken::from_str("{changed_file}"),
        Some(ActionFileToken::ChangedFile)
    );
    assert_eq!(
        ActionFileToken::from_str("{root}"),
        Some(ActionFileToken::Root)
    );
    assert_eq!(ActionFileToken::from_str("{other}"), None);
    assert_eq!(ActionFileToken::from_str("files"), None);
}
