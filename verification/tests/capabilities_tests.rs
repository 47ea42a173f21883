use peter_hook::capabilities::can_provide_files;

#[test]
fn test_can_provide_files_for_commit_hooks() {
    assert!(can_provide_files("pre-commit"));
    assert!(can_provide_files("post-commit"));
}

#[test]
fn test_can_provide_files_for_push_hooks() {
    assert!(can_provide_files("pre-push"));
}

#[test]
fn test_can_provide_files_for_merge_hooks() {
    assert!(can_provide_files("post-merge"));
    assert!(can_provide_files("post-checkout"));
}

#[test]
fn test_cannot_provide_files_for_message_hooks() {
    assert!(!can_provide_files("commit-msg"));
    assert!(!can_provide_files("prepare-commit-msg"));
    assert!(!can_provide_files("applypatch-msg"));
}

#[test]
fn test_can_provide_files_for_server_hooks() {
    assert!(can_provide_files("pre-receive"));
    assert!(can_provide_files("post-receive"));
    assert!(can_provide_files("update"));
    assert!(can_provide_files("post-update"));
}

#[test]
fn test_can_provide_files_for_other_hooks() {
    assert!(can_provide_files("pre-rebase"));
    assert!(can_provide_files("post-rewrite"));
    assert!(can_provide_files("pre-applypatch"));
    assert!(can_provide_files("post-applypatch"));
}

#[test]
fn test_cannot_provide_files_for_unknown_hook() {
    assert!(!can_provide_files("unknown-hook"));
    assert!(!can_provide_files(""));
}
