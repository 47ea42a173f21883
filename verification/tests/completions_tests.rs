use peter_hook::completions::{
    augment_bash, augment_fish, augment_script, augment_zsh, replace_case_block, Shell,
};

#[test]
fn test_replace_case_block_rewrites_block() {
    let mut script = "head\n        peter__hook__run)\n            old stuff\n            ;;\ntail\n"
        .to_string();
    replace_case_block(&mut script, "        peter__hook__run)", "NEW BLOCK");
    assert_eq!(script, "head\nNEW BLOCK\ntail\n");
}

#[test]
fn test_replace_case_block_without_marker_is_identity() {
    let mut script = "nothing to see here\n".to_string();
    replace_case_block(&mut script, "        peter__hook__run)", "NEW BLOCK");
    assert_eq!(script, "nothing to see here\n");
}

#[test]
fn test_augment_bash_rewrites_run_block_and_appends_helpers() {
    let script = "prefix\n        peter__hook__run)\n            old\n            ;;\nsuffix\n"
        .to_string();
    let out = augment_bash("peter-hook", script);
    assert!(out.contains("targets=\"$(peter-hook _run-targets)\""));
    assert!(!out.contains("            old\n"));
    assert!(out.contains("_peter_hook_list_run_targets() {"));
    assert!(out.contains("_peter_hook_list_lint_targets() {"));
    assert!(out.starts_with("prefix\n"));
}

#[test]
fn test_augment_zsh_redirects_arguments() {
    let script = "args: ':event -- The git hook event (pre-commit, pre-push, etc.):_default'\n\
                  more: ':hook_name -- Name of the hook or group to run:_default'\n"
        .to_string();
    let out = augment_zsh("peter-hook", script);
    assert!(out.contains(
        ":event -- The git hook event (pre-commit, pre-push, etc.):_peter_hook_run_events"
    ));
    assert!(out.contains(":hook_name -- Name of the hook or group to run:_peter_hook_lint_targets"));
    assert!(out.contains("_peter_hook_run_events() {"));
    assert!(out.contains("targets=(${(@f)$(peter-hook _lint-targets)})"));
    assert!(!out.contains("__BIN__"));
}

#[test]
fn test_augment_fish_appends_helpers() {
    let script = "# fish completions\n".to_string();
    let out = augment_fish("peter-hook", script);
    assert!(out.starts_with("# fish completions\n"));
    assert!(out.contains("function __fish_peter_hook_run_targets\n    peter-hook _run-targets\nend"));
    assert!(out.contains("complete -c peter-hook -n \"__fish_peter_hook_using_subcommand lint;"));
}

#[test]
fn test_augment_script_other_shell_unchanged() {
    let script = "#compdef something\n".to_string();
    let out = augment_script(Shell::Other, "peter-hook", script.clone());
    assert_eq!(out, script);
}

#[test]
fn test_augment_idempotent_without_markers() {
    // A script with no case markers only gains the appended helpers.
    let script = "plain\n".to_string();
    let out = augment_bash("tool", script);
    assert!(out.starts_with("plain\n"));
    assert!(out.contains("_tool_list_run_targets"));
}
