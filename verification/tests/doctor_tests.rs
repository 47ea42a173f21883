use peter_hook::config::{HookConfig, HookGroup};
use peter_hook::doctor::{
    check_configuration, check_git_repository, doctor_exit_code, ConfigProbe, GitRepoProbe,
    PeterHookDoctor,
};

#[test]
fn test_repo_info() {
    let (owner, name) = PeterHookDoctor::repo_info();
    assert_eq!(owner, "tftio");
    assert_eq!(name, "peter-hook");
}

#[test]
fn test_git_repository_not_found() {
    let checks = check_git_repository(&GitRepoProbe::NotFound {
        error: "no .git".to_string(),
    });
    assert_eq!(checks.len(), 1);
    assert!(!checks[0].passed);
    assert_eq!(checks[0].name, "Git repository");
    assert_eq!(
        checks[0].detail.as_deref(),
        Some("Not in a git repository: no .git")
    );
}

#[test]
fn test_git_repository_no_hooks_installed() {
    let checks = check_git_repository(&GitRepoProbe::Found { hooks: Ok(Vec::new()) });
    assert_eq!(checks.len(), 2);
    assert!(checks[0].passed);
    assert_eq!(checks[0].name, "Git repository found");
    assert!(!checks[1].passed);
    assert_eq!(
        checks[1].detail.as_deref(),
        Some("No git hooks installed - run 'peter-hook install' to install hooks")
    );
}

#[test]
fn test_git_repository_unmanaged_hooks() {
    let checks = check_git_repository(&GitRepoProbe::Found {
        hooks: Ok(vec![false, false, false]),
    });
    assert_eq!(checks[1].name, "3 git hook(s) found");
    assert!(!checks[1].passed);
}

#[test]
fn test_git_repository_managed_hooks() {
    let checks = check_git_repository(&GitRepoProbe::Found {
        hooks: Ok(vec![true, false, true]),
    });
    assert_eq!(checks[1].name, "2 hook(s) managed by peter-hook");
    assert!(checks[1].passed);
}

#[test]
fn test_configuration_checks() {
    let checks = check_configuration(&ConfigProbe::NoFile);
    assert_eq!(
        checks[0].detail.as_deref(),
        Some("No .peter-hook.toml found - create one to configure peter-hook")
    );

    let config = HookConfig {
        hooks: None,
        groups: Some(vec![(
            "pre-commit".to_string(),
            HookGroup { includes: Vec::new(), execution: None, placeholder: None },
        )]),
    };
    let checks = check_configuration(&ConfigProbe::Parsed {
        path: "/repo/.peter-hook.toml".to_string(),
        config,
    });
    assert_eq!(checks[0].name, "Config file found: /repo/.peter-hook.toml");
    assert_eq!(checks[1].name, "Found 1 hook(s)/group(s)");
    assert!(checks[1].passed);

    let empty = HookConfig { hooks: None, groups: None };
    let checks = check_configuration(&ConfigProbe::Parsed {
        path: "/repo/.peter-hook.toml".to_string(),
        config: empty,
    });
    assert_eq!(
        checks[1].detail.as_deref(),
        Some("No hooks or groups defined in .peter-hook.toml")
    );
}

#[test]
fn test_doctor_exit_code() {
    let healthy = check_git_repository(&GitRepoProbe::Found { hooks: Ok(vec![true]) });
    assert_eq!(doctor_exit_code(&healthy), 0);
    let sick = check_git_repository(&GitRepoProbe::NotFound { error: "x".to_string() });
    assert_eq!(doctor_exit_code(&sick), 1);
}
