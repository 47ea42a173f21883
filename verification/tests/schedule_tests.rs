use peter_hook::config::{
    ExecutionStrategy, ExecutionType, HookCommand, HookDefinition, ResolvedHook,
};
use peter_hook::schedule::{partition_phases, schedule_phase};

fn resolved(name: &str, modifies: bool, deps: &[&str]) -> (String, ResolvedHook) {
    (
        name.to_string(),
        ResolvedHook {
            definition: HookDefinition {
                command: HookCommand::Shell(format!("echo {name}")),
                workdir: None,
                run_at_root: false,
                files: None,
                run_always: false,
                requires_files: false,
                modifies_repository: modifies,
                depends_on: if deps.is_empty() {
                    None
                } else {
                    Some(deps.iter().map(|s| s.to_string()).collect())
                },
                timeout_seconds: 300,
                env: Vec::new(),
                execution_type: ExecutionType::Standard,
            },
            working_directory: "/repo".to_string(),
            source_file: "/repo/.peter-hook.toml".to_string(),
        },
    )
}

fn names(v: &[(String, ResolvedHook)]) -> Vec<&str> {
    v.iter().map(|(n, _)| n.as_str()).collect()
}

#[test]
fn test_partition_by_modifies_repository() {
    let hooks = vec![
        resolved("fmt", true, &[]),
        resolved("lint", false, &[]),
        resolved("test", false, &[]),
    ];
    let (parallel, sequential) = partition_phases(hooks, ExecutionStrategy::Parallel);
    assert_eq!(names(&parallel), vec!["lint", "test"]);
    assert_eq!(names(&sequential), vec!["fmt"]);
}

#[test]
fn test_sequential_group_has_no_parallel_phase() {
    let hooks = vec![
        resolved("fmt", true, &[]),
        resolved("lint", false, &[]),
    ];
    let (parallel, sequential) = partition_phases(hooks, ExecutionStrategy::Sequential);
    assert!(parallel.is_empty());
    assert_eq!(names(&sequential), vec!["fmt", "lint"]);
}

#[test]
fn test_schedule_respects_dependencies() {
    let hooks = vec![
        resolved("build", false, &[]),
        resolved("package", false, &["check"]),
        resolved("check", false, &["build"]),
    ];
    let order = schedule_phase(hooks).unwrap();
    assert_eq!(names(&order), vec!["build", "check", "package"]);
}

#[test]
fn test_schedule_keeps_incoming_order_without_dependencies() {
    let hooks = vec![
        resolved("one", false, &[]),
        resolved("two", false, &[]),
        resolved("three", false, &[]),
    ];
    let order = schedule_phase(hooks).unwrap();
    assert_eq!(names(&order), vec!["one", "two", "three"]);
}

#[test]
fn test_schedule_ignores_dependencies_outside_the_phase() {
    let hooks = vec![resolved("solo", false, &["not-here"])];
    let order = schedule_phase(hooks).unwrap();
    assert_eq!(names(&order), vec!["solo"]);
}

#[test]
fn test_schedule_reports_dependency_cycle() {
    let hooks = vec![
        resolved("ouro", false, &["boros"]),
        resolved("boros", false, &["ouro"]),
    ];
    let err = schedule_phase(hooks).unwrap_err();
    assert_eq!(
        err.message(),
        "Dependency cycle detected involving hook 'ouro'"
    );
}
