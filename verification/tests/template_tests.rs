use peter_hook::template::{expand_template, TemplateContext};

fn ctx() -> TemplateContext {
    TemplateContext {
        hook_dir: "/repo/src".to_string(),
        repo_root: "/repo".to_string(),
        home_dir: "/home/user".to_string(),
        path: "/usr/bin:/bin".to_string(),
        project_name: "repo".to_string(),
        worktree_name: "".to_string(),
        changed_files: None,
        changed_files_file: None,
    }
}

#[test]
fn test_expand_known_variables() {
    let out = expand_template("cd {HOOK_DIR} && {REPO_ROOT}/run {PROJECT_NAME}", &ctx()).unwrap();
    assert_eq!(out, "cd /repo/src && /repo/run repo");
}

#[test]
fn test_expand_unknown_variable_is_error() {
    let err = expand_template("echo {USER}", &ctx()).unwrap_err();
    assert_eq!(err.message(), "Unknown template variable: USER");
}

#[test]
fn test_expand_is_case_sensitive() {
    let err = expand_template("echo {hook_dir}", &ctx()).unwrap_err();
    assert!(err.message().contains("hook_dir"));
}

#[test]
fn test_expand_without_braces_is_identity() {
    let input = "plain command with no variables";
    let out = expand_template(input, &ctx()).unwrap();
    assert_eq!(out, input);
    // A second expansion changes nothing either.
    let again = expand_template(&out, &ctx()).unwrap();
    assert_eq!(again, out);
}

#[test]
fn test_expand_changed_files_only_when_granted() {
    let err = expand_template("check {CHANGED_FILES}", &ctx()).unwrap_err();
    assert!(err.message().contains("CHANGED_FILES"));

    let mut granted = ctx();
    granted.changed_files = Some("a.rs b.rs".to_string());
    let out = expand_template("check {CHANGED_FILES}", &granted).unwrap();
    assert_eq!(out, "check a.rs b.rs");
}

#[test]
fn test_expand_does_not_rescan_values() {
    let mut tricky = ctx();
    tricky.project_name = "{PATH}".to_string();
    let out = expand_template("name: {PROJECT_NAME}", &tricky).unwrap();
    // The substituted value is opaque text; it is not expanded again.
    assert_eq!(out, "name: {PATH}");
}

#[test]
fn test_unclosed_brace_kept_literally() {
    let out = expand_template("odd { text", &ctx()).unwrap();
    assert_eq!(out, "odd { text");
}
