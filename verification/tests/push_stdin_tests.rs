use peter_hook::changes::parse_push_stdin;

#[test]
fn test_parse_push_stdin_valid() {
    let stdin = "refs/heads/main a1b2c3d4e5f6a7b8c9d0e1f2a3b4c5d6e7f8a9b0 refs/heads/main \
                 0fedcba9876543210fedcba9876543210fedcba9";
    let (local_oid, remote_oid) = parse_push_stdin(stdin).unwrap();
    assert_eq!(local_oid, "a1b2c3d4e5f6a7b8c9d0e1f2a3b4c5d6e7f8a9b0");
    assert_eq!(remote_oid, "0fedcba9876543210fedcba9876543210fedcba9");
}

#[test]
fn test_parse_push_stdin_new_branch() {
    // When pushing a new branch, remote OID is all zeros
    let stdin = "refs/heads/feature a1b2c3d4e5f6a7b8c9d0e1f2a3b4c5d6e7f8a9b0 \
                 refs/heads/feature 0000000000000000000000000000000000000000";
    let (local_oid, remote_oid) = parse_push_stdin(stdin).unwrap();
    assert_eq!(local_oid, "a1b2c3d4e5f6a7b8c9d0e1f2a3b4c5d6e7f8a9b0");
    // Should be replaced with empty tree hash
    assert_eq!(remote_oid, "4b825dc642cb6eb9a060e54bf8d69288fbee4904");
}

#[test]
fn test_parse_push_stdin_empty() {
    let stdin = "";
    let err = parse_push_stdin(stdin).unwrap_err();
    assert!(err.message().contains("No input received"));
}

#[test]
fn test_parse_push_stdin_invalid_format() {
    let stdin = "refs/heads/main a1b2c3d4e5f6a7b8c9d0e1f2a3b4c5d6e7f8a9b0"; // Missing fields
    let err = parse_push_stdin(stdin).unwrap_err();
    assert!(err.message().contains("Invalid pre-push stdin format"));
}

#[test]
fn test_parse_push_stdin_multiple_lines() {
    // Should only parse the first line
    let stdin = "refs/heads/main a1b2c3d4e5f6a7b8c9d0e1f2a3b4c5d6e7f8a9b0 refs/heads/main \
                 0fedcba9876543210fedcba9876543210fedcba9\nrefs/heads/other \
                 1234567890abcdef1234567890abcdef12345678 refs/heads/other \
                 fedcba0987654321fedcba0987654321fedcba09";
    let (local_oid, remote_oid) = parse_push_stdin(stdin).unwrap();
    assert_eq!(local_oid, "a1b2c3d4e5f6a7b8c9d0e1f2a3b4c5d6e7f8a9b0");
    assert_eq!(remote_oid, "0fedcba9876543210fedcba9876543210fedcba9");
}

#[test]
fn test_parse_push_stdin_invalid_local_oid_too_short() {
    let stdin =
        "refs/heads/main abc123 refs/heads/main 0fedcba9876543210fedcba9876543210fedcba9";
    let err = parse_push_stdin(stdin).unwrap_err();
    assert!(
        err.message().contains("Invalid local OID format"),
        "Error should mention invalid local OID: {}",
        err.message()
    );
}

#[test]
fn test_parse_push_stdin_invalid_local_oid_non_hex() {
    let stdin = "refs/heads/main xyz123def456xyz123def456xyz123def456xy refs/heads/main \
                 0fedcba9876543210fedcba9876543210fedcba9";
    let err = parse_push_stdin(stdin).unwrap_err();
    assert!(
        err.message().contains("Invalid local OID format"),
        "Error should mention invalid local OID: {}",
        err.message()
    );
}

#[test]
fn test_parse_push_stdin_invalid_remote_oid_too_long() {
    let stdin = "refs/heads/main a1b2c3d4e5f6a7b8c9d0e1f2a3b4c5d6e7f8a9b0 refs/heads/main \
                 0fedcba9876543210fedcba9876543210fedcba9extra";
    let err = parse_push_stdin(stdin).unwrap_err();
    assert!(
        err.message().contains("Invalid remote OID format"),
        "Error should mention invalid remote OID: {}",
        err.message()
    );
}

#[test]
fn test_parse_push_stdin_mixed_case_oids() {
    // OIDs can be mixed case - should be valid
    let stdin = "refs/heads/main A1B2C3D4E5F6a7b8c9d0E1F2A3B4C5D6e7f8a9b0 refs/heads/main \
                 0FEDcba9876543210FEDcba9876543210FEDcba9";
    let (local_oid, remote_oid) = parse_push_stdin(stdin).unwrap();
    assert_eq!(local_oid, "A1B2C3D4E5F6a7b8c9d0E1F2A3B4C5D6e7f8a9b0");
    assert_eq!(remote_oid, "0FEDcba9876543210FEDcba9876543210FEDcba9");
}

#[test]
fn test_parse_push_stdin_error_names_offending_token() {
    let stdin = "refs/heads/main abc123 refs/heads/main 0fedcba9876543210fedcba9876543210fedcba9";
    let err = parse_push_stdin(stdin).unwrap_err();
    assert!(err.message().contains("'abc123'"));
}

#[test]
fn test_is_valid_oid() {
    assert!(peter_hook::changes::is_valid_oid(
        "a1b2c3d4e5f6a7b8c9d0e1f2a3b4c5d6e7f8a9b0"
    ));
    assert!(!peter_hook::changes::is_valid_oid("abc"));
    assert!(!peter_hook::changes::is_valid_oid(
        "x1b2c3d4e5f6a7b8c9d0e1f2a3b4c5d6e7f8a9b0"
    ));
}
