use peter_hook::config::{
    ConfigEntry, ExecutionStrategy, ExecutionType, HookCommand, HookConfig, HookDefinition,
    HookGroup, WorktreeContext,
};
use peter_hook::hierarchical::{
    find_nearest_config_for_file, group_files_by_config, resolve_hooks_hierarchically,
    resolve_working_directory, should_run_hook,
};

fn hook(cmd: &str) -> HookDefinition {
    HookDefinition {
        command: HookCommand::Shell(cmd.to_string()),
        workdir: None,
        run_at_root: false,
        files: None,
        run_always: false,
        requires_files: false,
        modifies_repository: false,
        depends_on: None,
        timeout_seconds: 300,
        env: Vec::new(),
        execution_type: ExecutionType::Standard,
    }
}

fn group(includes: &[&str]) -> HookGroup {
    HookGroup {
        includes: includes.iter().map(|s| s.to_string()).collect(),
        execution: None,
        placeholder: None,
    }
}

fn worktree(root: &str) -> WorktreeContext {
    WorktreeContext {
        is_worktree: false,
        worktree_name: None,
        repo_root: root.to_string(),
        common_dir: root.to_string(),
        working_dir: root.to_string(),
    }
}

fn entry(dir: &str, config: HookConfig) -> ConfigEntry {
    ConfigEntry {
        dir: dir.to_string(),
        path: format!("{dir}/.peter-hook.toml"),
        config,
    }
}

#[test]
fn test_find_nearest_config_for_file() {
    let configs = vec![
        entry("/repo", HookConfig { hooks: Some(vec![("test".to_string(), hook("echo root"))]), groups: None }),
        entry("/repo/src", HookConfig { hooks: Some(vec![("test".to_string(), hook("echo src"))]), groups: None }),
    ];
    let root = "/repo".to_string();

    // File in subdir should find nearest config (src)
    let config = find_nearest_config_for_file(&"/repo/src/subdir/file.rs".to_string(), &root, &configs);
    assert_eq!(config, Some("/repo/src/.peter-hook.toml".to_string()));

    // File at root should find root config
    let config = find_nearest_config_for_file(&"/repo/root.rs".to_string(), &root, &configs);
    assert_eq!(config, Some("/repo/.peter-hook.toml".to_string()));
}

#[test]
fn test_file_without_config_has_none() {
    let configs = vec![entry(
        "/repo/src",
        HookConfig { hooks: Some(vec![("test".to_string(), hook("echo src"))]), groups: None },
    )];
    let root = "/repo".to_string();
    let config = find_nearest_config_for_file(&"/repo/docs/readme.md".to_string(), &root, &configs);
    assert_eq!(config, None);
}

#[test]
fn test_nearest_only_resolution() {
    // Root defines pre-commit with fmt and lint; src defines only test.
    let root_config = HookConfig {
        hooks: Some(vec![
            ("fmt".to_string(), hook("cargo fmt")),
            ("lint".to_string(), hook("cargo clippy")),
        ]),
        groups: Some(vec![("pre-commit".to_string(), group(&["fmt", "lint"]))]),
    };
    let src_config = HookConfig {
        hooks: Some(vec![("test".to_string(), hook("cargo test"))]),
        groups: Some(vec![("pre-commit".to_string(), group(&["test"]))]),
    };
    let configs = vec![entry("/repo", root_config), entry("/repo/src", src_config)];
    let root = "/repo".to_string();
    let files = vec!["src/x.rs".to_string()];

    let groups = resolve_hooks_hierarchically(
        "pre-commit",
        Some(&files),
        &root,
        &root,
        &worktree("/repo"),
        &configs,
    )
    .unwrap();

    // Under nearest-only resolution, only the src config applies: only test runs.
    assert_eq!(groups.len(), 1);
    assert_eq!(groups[0].config_path, "/repo/src/.peter-hook.toml");
    assert_eq!(groups[0].files, vec!["src/x.rs".to_string()]);
    let names: Vec<&str> = groups[0]
        .resolved_hooks
        .hooks
        .iter()
        .map(|(n, _)| n.as_str())
        .collect();
    assert_eq!(names, vec!["test"]);
}

#[test]
fn test_no_config_merging_child_only_uses_own_hooks() {
    let root_config = HookConfig {
        hooks: Some(vec![
            ("format".to_string(), hook("cargo fmt")),
            ("lint".to_string(), hook("cargo clippy")),
        ]),
        groups: Some(vec![("pre-commit".to_string(), group(&["format", "lint"]))]),
    };
    let src_config = HookConfig {
        hooks: Some(vec![("test".to_string(), hook("cargo test"))]),
        groups: Some(vec![("pre-commit".to_string(), group(&["test"]))]),
    };
    let configs = vec![entry("/repo", root_config), entry("/repo/src", src_config)];
    let root = "/repo".to_string();

    // Resolve from the child directory with no file list: only the child's
    // own hooks appear, nothing inherited from the parent.
    let groups = resolve_hooks_hierarchically(
        "pre-commit",
        None,
        &root,
        &"/repo/src".to_string(),
        &worktree("/repo"),
        &configs,
    )
    .unwrap();
    assert_eq!(groups.len(), 1);
    let resolved = &groups[0].resolved_hooks;
    assert_eq!(resolved.hooks.len(), 1);
    assert!(resolved.hooks.iter().any(|(n, _)| n == "test"));
    assert!(!resolved.hooks.iter().any(|(n, _)| n == "format"));
    assert!(!resolved.hooks.iter().any(|(n, _)| n == "lint"));
}

#[test]
fn test_placeholder_group_contributes_nothing() {
    let config = HookConfig {
        hooks: Some(vec![("fmt".to_string(), hook("echo ok"))]),
        groups: Some(vec![(
            "pre-commit".to_string(),
            HookGroup {
                includes: vec!["fmt".to_string()],
                execution: None,
                placeholder: Some(true),
            },
        )]),
    };
    let configs = vec![entry("/repo", config)];
    let root = "/repo".to_string();
    let files = vec!["x.rs".to_string()];
    let groups = resolve_hooks_hierarchically(
        "pre-commit",
        Some(&files),
        &root,
        &root,
        &worktree("/repo"),
        &configs,
    )
    .unwrap();
    assert!(groups.is_empty());
}

#[test]
fn test_cyclic_group_terminates() {
    let config = HookConfig {
        hooks: Some(vec![("fmt".to_string(), hook("echo ok"))]),
        groups: Some(vec![
            ("pre-commit".to_string(), group(&["loop-a"])),
            ("loop-a".to_string(), group(&["loop-b"])),
            ("loop-b".to_string(), group(&["loop-a", "fmt"])),
        ]),
    };
    let configs = vec![entry("/repo", config)];
    let root = "/repo".to_string();
    let files = vec!["x.rs".to_string()];
    let groups = resolve_hooks_hierarchically(
        "pre-commit",
        Some(&files),
        &root,
        &root,
        &worktree("/repo"),
        &configs,
    )
    .unwrap();
    assert_eq!(groups.len(), 1);
    let names: Vec<&str> = groups[0]
        .resolved_hooks
        .hooks
        .iter()
        .map(|(n, _)| n.as_str())
        .collect();
    assert_eq!(names, vec!["fmt"]);
}

#[test]
fn test_requires_files_hook_skipped_without_file_list() {
    let mut needy = hook("echo needs files");
    needy.requires_files = true;
    let config = HookConfig {
        hooks: Some(vec![("needy".to_string(), needy)]),
        groups: Some(vec![("commit-msg".to_string(), group(&["needy"]))]),
    };
    let configs = vec![entry("/repo", config)];
    let root = "/repo".to_string();
    // No file list at all: the hook is skipped, so the event yields nothing.
    let groups = resolve_hooks_hierarchically(
        "commit-msg",
        None,
        &root,
        &root,
        &worktree("/repo"),
        &configs,
    )
    .unwrap();
    assert!(groups.is_empty());
}

#[test]
fn test_file_filtering_by_patterns() {
    let mut rusty = hook("cargo check");
    rusty.files = Some(vec!["**/*.rs".to_string()]);
    let config = HookConfig {
        hooks: Some(vec![("rusty".to_string(), rusty)]),
        groups: Some(vec![("pre-commit".to_string(), group(&["rusty"]))]),
    };
    let configs = vec![entry("/repo", config)];
    let root = "/repo".to_string();
    let wt = worktree("/repo");

    let rust_files = vec!["src/lib.rs".to_string()];
    let groups =
        group_files_by_config(&rust_files, &root, "pre-commit", &wt, &configs).unwrap();
    assert_eq!(groups.len(), 1);

    let other_files = vec!["README.md".to_string()];
    let groups =
        group_files_by_config(&other_files, &root, "pre-commit", &wt, &configs).unwrap();
    assert!(groups.is_empty());
}

#[test]
fn test_invalid_pattern_fails_resolution() {
    let mut bad = hook("echo bad");
    bad.files = Some(vec!["a**b".to_string()]);
    let config = HookConfig {
        hooks: Some(vec![("bad".to_string(), bad)]),
        groups: Some(vec![("pre-commit".to_string(), group(&["bad"]))]),
    };
    let configs = vec![entry("/repo", config)];
    let root = "/repo".to_string();
    let files = vec!["x.rs".to_string()];
    let err = resolve_hooks_hierarchically(
        "pre-commit",
        Some(&files),
        &root,
        &root,
        &worktree("/repo"),
        &configs,
    )
    .unwrap_err();
    assert_eq!(err.message(), "Invalid glob pattern: a**b");
}

#[test]
fn test_group_execution_strategy_carried() {
    let config = HookConfig {
        hooks: Some(vec![("fmt".to_string(), hook("echo ok"))]),
        groups: Some(vec![(
            "pre-commit".to_string(),
            HookGroup {
                includes: vec!["fmt".to_string()],
                execution: Some(ExecutionStrategy::Parallel),
                placeholder: None,
            },
        )]),
    };
    let configs = vec![entry("/repo", config)];
    let root = "/repo".to_string();
    let files = vec!["x.rs".to_string()];
    let groups = resolve_hooks_hierarchically(
        "pre-commit",
        Some(&files),
        &root,
        &root,
        &worktree("/repo"),
        &configs,
    )
    .unwrap();
    assert_eq!(
        groups[0].resolved_hooks.execution_strategy,
        ExecutionStrategy::Parallel
    );
}

#[test]
fn test_resolve_working_directory_cases() {
    let config_dir = "/repo/src".to_string();
    let root = "/repo".to_string();

    let mut rooted = hook("echo");
    rooted.run_at_root = true;
    assert_eq!(resolve_working_directory(&rooted, &config_dir, &root), "/repo");

    let plain = hook("echo");
    assert_eq!(
        resolve_working_directory(&plain, &config_dir, &root),
        "/repo/src"
    );

    let mut relative = hook("echo");
    relative.workdir = Some("sub".to_string());
    assert_eq!(
        resolve_working_directory(&relative, &config_dir, &root),
        "/repo/src/sub"
    );

    let mut absolute = hook("echo");
    absolute.workdir = Some("/elsewhere".to_string());
    assert_eq!(
        resolve_working_directory(&absolute, &config_dir, &root),
        "/elsewhere"
    );
}

#[test]
fn test_should_run_hook_cases() {
    let plain = hook("echo");
    assert!(should_run_hook(&plain, None).unwrap());

    let mut always = hook("echo");
    always.run_always = true;
    always.files = Some(vec!["*.py".to_string()]);
    let files = vec!["main.rs".to_string()];
    assert!(should_run_hook(&always, Some(&files)).unwrap());

    let mut filtered = hook("echo");
    filtered.files = Some(vec!["*.py".to_string()]);
    assert!(!should_run_hook(&filtered, Some(&files)).unwrap());
    assert!(should_run_hook(&filtered, None).unwrap());

    let mut broken = hook("echo");
    broken.files = Some(vec!["a**b".to_string()]);
    let err = should_run_hook(&broken, Some(&files)).unwrap_err();
    assert!(err.message().contains("a**b"));
}

#[test]
fn test_direct_hook_resolves_for_event() {
    // A hook named exactly like the event runs even without any group.
    let config = HookConfig {
        hooks: Some(vec![("pre-commit".to_string(), hook("echo direct"))]),
        groups: None,
    };
    let configs = vec![entry("/repo", config)];
    let root = "/repo".to_string();
    let files = vec!["x.rs".to_string()];
    let groups = resolve_hooks_hierarchically(
        "pre-commit",
        Some(&files),
        &root,
        &root,
        &worktree("/repo"),
        &configs,
    )
    .unwrap();
    assert_eq!(groups.len(), 1);
    assert_eq!(groups[0].resolved_hooks.hooks.len(), 1);
    assert_eq!(groups[0].resolved_hooks.hooks[0].0, "pre-commit");
    assert_eq!(
        groups[0].resolved_hooks.execution_strategy,
        ExecutionStrategy::Sequential
    );
}
