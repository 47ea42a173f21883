use peter_hook::changes::{
    parse_name_status, parse_untracked, ChangeDetectionMode, FilePatternMatcher,
    GitChangeDetector,
};

#[test]
fn test_change_detector_creation() {
    let detector = GitChangeDetector::new("/work/repo".to_string(), true).unwrap();
    assert_eq!(detector.repo_root(), "/work/repo");
}

#[test]
fn test_change_detector_rejects_non_repository() {
    let err = GitChangeDetector::new("/work/elsewhere".to_string(), false).unwrap_err();
    assert!(err.message().contains("Not a git repository: /work/elsewhere"));
}

#[test]
fn test_file_pattern_matcher() {
    let patterns = vec!["**/*.rs".to_string(), "*.toml".to_string()];

    let matcher = FilePatternMatcher::new(&patterns).unwrap();

    // Should match Rust files
    assert!(matcher.matches("src/main.rs"));
    assert!(matcher.matches("tests/test.rs"));
    assert!(matcher.matches("lib/deep/nested/file.rs"));

    // Should match TOML files in root
    assert!(matcher.matches("Cargo.toml"));
    assert!(matcher.matches("config.toml"));

    // Should not match other files
    assert!(!matcher.matches("README.md"));
    assert!(!matcher.matches("src/config/file.js"));

    // Note: "*.toml" pattern only matches files in root, not nested
    // But our matcher also checks filename, so this will match
    assert!(matcher.matches("nested/Cargo.toml")); // Matches by filename
}

#[test]
fn test_pattern_matches_any() {
    let patterns = vec!["**/*.py".to_string()];
    let matcher = FilePatternMatcher::new(&patterns).unwrap();

    let mixed_files = vec![
        "src/main.rs".to_string(),
        "scripts/build.py".to_string(),
        "README.md".to_string(),
    ];

    assert!(matcher.matches_any(&mixed_files)); // Contains build.py

    let no_python_files = vec!["src/main.rs".to_string(), "README.md".to_string()];

    assert!(!matcher.matches_any(&no_python_files)); // No Python files
}

#[test]
fn test_empty_patterns() {
    let matcher = FilePatternMatcher::new(&Vec::new()).unwrap();

    // Empty patterns should match everything
    assert!(matcher.matches("any/file.ext"));
    assert!(matcher.matches_any(&vec!["test.rs".to_string()]));
}

#[test]
fn test_empty_patterns_with_no_files() {
    let empty = FilePatternMatcher::new(&Vec::new()).unwrap();
    assert!(empty.matches_any(&Vec::new()));
    let nonempty = FilePatternMatcher::new(&vec!["*.rs".to_string()]).unwrap();
    assert!(!nonempty.matches_any(&Vec::new()));
}

#[test]
fn test_invalid_pattern_reports_pattern() {
    let err = FilePatternMatcher::new(&vec!["a**b".to_string()]).unwrap_err();
    assert_eq!(err.message(), "Invalid glob pattern: a**b");
}

#[test]
fn test_name_status_excludes_deleted() {
    let output = "M\tkept.rs\nD\tgone.rs\nA\tnew.rs\n";
    let files = parse_name_status(output);
    assert_eq!(files, vec!["kept.rs".to_string(), "new.rs".to_string()]);
}

#[test]
fn test_name_status_rename_uses_destination() {
    let output = "R100\told_name.rs\tnew_name.rs\nC75\ttemplate.rs\tcopied.rs\n";
    let files = parse_name_status(output);
    assert_eq!(
        files,
        vec!["new_name.rs".to_string(), "copied.rs".to_string()]
    );
}

#[test]
fn test_untracked_lines_trimmed() {
    let output = "a.rs\n  b.rs  \n\n";
    let files = parse_untracked(output);
    assert_eq!(files, vec!["a.rs".to_string(), "b.rs".to_string()]);
}

#[test]
fn test_working_directory_union_deduplicates() {
    let detector = GitChangeDetector::new("/r".to_string(), true).unwrap();
    let outputs = vec![
        "M\ta.rs\nD\tdead.rs\n".to_string(),
        "M\ta.rs\nM\tb.rs\n".to_string(),
        "c.txt\n".to_string(),
    ];
    let files = detector.get_changed_files(&ChangeDetectionMode::WorkingDirectory, &outputs);
    assert_eq!(
        files,
        vec!["a.rs".to_string(), "b.rs".to_string(), "c.txt".to_string()]
    );
}

#[test]
fn test_staged_changes_from_output() {
    let detector = GitChangeDetector::new("/r".to_string(), true).unwrap();
    let outputs = vec!["A\tnew.rs\nD\ttest.rs\n".to_string()];
    let files = detector.get_changed_files(&ChangeDetectionMode::Staged, &outputs);
    assert!(files.contains(&"new.rs".to_string()));
    assert!(!files.contains(&"test.rs".to_string()));
}

#[test]
fn test_push_change_commands_compare_remote_to_local() {
    let detector = GitChangeDetector::new("/r".to_string(), true).unwrap();
    let mode = ChangeDetectionMode::Push {
        local_oid: "a1b2c3d4e5f6a7b8c9d0e1f2a3b4c5d6e7f8a9b0".to_string(),
        remote_oid: "4b825dc642cb6eb9a060e54bf8d69288fbee4904".to_string(),
    };
    let cmds = detector.change_commands(&mode);
    assert_eq!(cmds.len(), 1);
    assert_eq!(
        cmds[0],
        vec![
            "diff".to_string(),
            "--name-status".to_string(),
            "4b825dc642cb6eb9a060e54bf8d69288fbee4904".to_string(),
            "a1b2c3d4e5f6a7b8c9d0e1f2a3b4c5d6e7f8a9b0".to_string(),
        ]
    );
}

#[test]
fn test_commit_range_command_formats_range() {
    let detector = GitChangeDetector::new("/r".to_string(), true).unwrap();
    let mode = ChangeDetectionMode::CommitRange {
        from: "abc".to_string(),
        to: "HEAD".to_string(),
    };
    let cmds = detector.change_commands(&mode);
    assert_eq!(
        cmds[0],
        vec![
            "diff".to_string(),
            "--name-status".to_string(),
            "abc..HEAD".to_string(),
        ]
    );
}

#[test]
fn test_working_directory_commands() {
    let detector = GitChangeDetector::new("/r".to_string(), true).unwrap();
    let cmds = detector.change_commands(&ChangeDetectionMode::WorkingDirectory);
    assert_eq!(cmds.len(), 3);
    assert_eq!(
        cmds[2],
        vec![
            "ls-files".to_string(),
            "--others".to_string(),
            "--exclude-standard".to_string(),
        ]
    );
}
