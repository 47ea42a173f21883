//! The configuration data model: hook definitions, groups, parsed config
//! files, and the resolved forms the executor consumes.
//!
//! Values of these types are built by the embedding program from the
//! declarative configuration text; the resolver works on them as pure
//! data. Each type has a mathematical view over which every contract is
//! stated.

use vstd::prelude::*;

verus! {

/// How the hooks of a group are scheduled.
#[derive(Clone, Copy, PartialEq, Eq, Structural, Debug)]
pub enum ExecutionStrategy {
    /// One at a time, in order.
    Sequential,
    /// Concurrently, for hooks that do not modify the repository.
    Parallel,
}

/// Which template variables a hook's command may use.
#[derive(Clone, Copy, PartialEq, Eq, Structural, Debug)]
pub enum ExecutionType {
    /// The ordinary variable set.
    Standard,
    /// Additionally the changed-file variables.
    Other,
}

/// What a hook runs: a shell string or an explicit argument vector.
#[derive(Debug)]
pub enum HookCommand {
    /// A shell command line.
    Shell(String),
    /// An argument vector, run without a shell.
    Args(Vec<String>),
}

/// The view of a `HookCommand`.
#[verifier::ext_equal]
pub enum HookCommandView {
    /// A shell command line.
    Shell(Seq<char>),
    /// An argument vector.
    Args(Seq<Seq<char>>),
}

impl DeepView for HookCommand {
    type V = HookCommandView;

    open spec fn deep_view(&self) -> HookCommandView {
        self.view()
    }
}

impl View for HookCommand {
    type V = HookCommandView;

    open spec fn view(&self) -> HookCommandView {
        match self {
            HookCommand::Shell(s) => HookCommandView::Shell(s@),
            HookCommand::Args(v) => HookCommandView::Args(v.deep_view()),
        }
    }
}

/// A single executable hook as declared in a configuration file.
#[derive(Debug)]
pub struct HookDefinition {
    /// What to run.
    pub command: HookCommand,
    /// Working directory; relative paths resolve against the defining
    /// config's directory.
    pub workdir: Option<String>,
    /// Run in the repository root regardless of `workdir`.
    pub run_at_root: bool,
    /// Glob patterns; when present the hook runs only if a changed file
    /// matches.
    pub files: Option<Vec<String>>,
    /// Run unconditionally, ignoring `files`.
    pub run_always: bool,
    /// Skip silently when no file list can be furnished.
    pub requires_files: bool,
    /// The hook may modify the repository; such hooks are scheduled
    /// sequentially.
    pub modifies_repository: bool,
    /// Names of hooks that must be scheduled before this one.
    pub depends_on: Option<Vec<String>>,
    /// Wall-clock budget from spawn to exit, in seconds.
    pub timeout_seconds: u64,
    /// Extra environment entries for the child.
    pub env: Vec<(String, String)>,
    /// Which template variables the command may use.
    pub execution_type: ExecutionType,
}

/// The view of a `HookDefinition`.
#[verifier::ext_equal]
pub struct HookDefinitionView {
    /// What to run.
    pub command: HookCommandView,
    /// Working directory, when declared.
    pub workdir: Option<Seq<char>>,
    /// Run in the repository root.
    pub run_at_root: bool,
    /// Glob patterns, when declared.
    pub files: Option<Seq<Seq<char>>>,
    /// Run unconditionally.
    pub run_always: bool,
    /// Skip without a file list.
    pub requires_files: bool,
    /// May modify the repository.
    pub modifies_repository: bool,
    /// Scheduling predecessors, when declared.
    pub depends_on: Option<Seq<Seq<char>>>,
    /// Wall-clock budget in seconds.
    pub timeout_seconds: u64,
    /// Extra child environment entries.
    pub env: Seq<(Seq<char>, Seq<char>)>,
    /// Which template variables the command may use.
    pub execution_type: ExecutionType,
}

impl DeepView for HookDefinition {
    type V = HookDefinitionView;

    open spec fn deep_view(&self) -> HookDefinitionView {
        self.view()
    }
}

impl View for HookDefinition {
    type V = HookDefinitionView;

    open spec fn view(&self) -> HookDefinitionView {
        HookDefinitionView {
            command: self.command@,
            workdir: self.workdir.deep_view(),
            run_at_root: self.run_at_root,
            files: self.files.deep_view(),
            run_always: self.run_always,
            requires_files: self.requires_files,
            modifies_repository: self.modifies_repository,
            depends_on: self.depends_on.deep_view(),
            timeout_seconds: self.timeout_seconds,
            env: self.env.deep_view(),
            execution_type: self.execution_type,
        }
    }
}

/// A named aggregation of hooks and nested groups.
#[derive(Debug)]
pub struct HookGroup {
    /// The hook or group names that are members of this group, in order.
    pub includes: Vec<String>,
    /// The scheduling regime; sequential when absent.
    pub execution: Option<ExecutionStrategy>,
    /// A placeholder group contributes no hooks at all.
    pub placeholder: Option<bool>,
}

/// The view of a `HookGroup`.
#[verifier::ext_equal]
pub struct HookGroupView {
    /// The member names, in order.
    pub includes: Seq<Seq<char>>,
    /// The scheduling regime, when declared.
    pub execution: Option<ExecutionStrategy>,
    /// The placeholder flag, when declared.
    pub placeholder: Option<bool>,
}

impl DeepView for HookGroup {
    type V = HookGroupView;

    open spec fn deep_view(&self) -> HookGroupView {
        self.view()
    }
}

impl View for HookGroup {
    type V = HookGroupView;

    open spec fn view(&self) -> HookGroupView {
        HookGroupView {
            includes: self.includes.deep_view(),
            execution: self.execution,
            placeholder: self.placeholder,
        }
    }
}

/// The scheduling regime of a group, sequential unless declared parallel.
pub open spec fn spec_group_strategy(g: HookGroupView) -> ExecutionStrategy {
    match g.execution {
        Some(e) => e,
        None => ExecutionStrategy::Sequential,
    }
}

impl HookGroup {
    /// The scheduling regime of this group; sequential unless declared.
    pub fn get_execution_strategy(&self) -> (r: ExecutionStrategy)
        ensures
            r == spec_group_strategy(self@),
    {
        match self.execution {
            Some(e) => e,
            None => ExecutionStrategy::Sequential,
        }
    }
}

/// One parsed configuration file: named hooks and named groups.
#[derive(Debug)]
pub struct HookConfig {
    /// The hook definitions, by name.
    pub hooks: Option<Vec<(String, HookDefinition)>>,
    /// The groups, by name.
    pub groups: Option<Vec<(String, HookGroup)>>,
}

/// The view of a `HookConfig`.
#[verifier::ext_equal]
pub struct HookConfigView {
    /// The hook definitions, by name.
    pub hooks: Option<Seq<(Seq<char>, HookDefinitionView)>>,
    /// The groups, by name.
    pub groups: Option<Seq<(Seq<char>, HookGroupView)>>,
}

impl DeepView for HookConfig {
    type V = HookConfigView;

    open spec fn deep_view(&self) -> HookConfigView {
        self.view()
    }
}

impl View for HookConfig {
    type V = HookConfigView;

    open spec fn view(&self) -> HookConfigView {
        HookConfigView { hooks: self.hooks.deep_view(), groups: self.groups.deep_view() }
    }
}

/// The names a config declares: its hook names followed by its group
/// names.
pub open spec fn spec_hook_names(c: HookConfigView) -> Seq<Seq<char>> {
    (match c.hooks {
        None => Seq::<Seq<char>>::empty(),
        Some(hs) => hs.map_values(|p: (Seq<char>, HookDefinitionView)| p.0),
    }) + (match c.groups {
        None => Seq::<Seq<char>>::empty(),
        Some(gs) => gs.map_values(|p: (Seq<char>, HookGroupView)| p.0),
    })
}

impl HookConfig {
    /// Every name this config declares: hook names, then group names.
    pub fn get_hook_names(&self) -> (r: Vec<String>)
        ensures
            r.deep_view() == spec_hook_names(self@),
    {
        let mut names: Vec<String> = Vec::new();
        match &self.hooks {
            None => {},
            Some(hs) => {
                let mut i: usize = 0;
                while i < hs.len()
                    invariant
                        i <= hs@.len(),
                        names.deep_view() =~~= hs.deep_view().map_values(
                            |p: (Seq<char>, HookDefinitionView)| p.0,
                        ).subrange(0, i as int),
                    decreases hs@.len() - i,
                {
                    let ghost n0 = names.deep_view();
                    names.push(hs[i].0.clone());
                    proof {
                        assert(names.deep_view() =~~= n0.push(hs@[i as int].0@));
                        assert(names.deep_view() =~~= hs.deep_view().map_values(
                            |p: (Seq<char>, HookDefinitionView)| p.0,
                        ).subrange(0, i + 1));
                    }
                    i = i + 1;
                }
            },
        }
        let ghost hook_part = names.deep_view();
        match &self.groups {
            None => {},
            Some(gs) => {
                let mut i: usize = 0;
                while i < gs.len()
                    invariant
                        i <= gs@.len(),
                        names.deep_view() =~~= hook_part + gs.deep_view().map_values(
                            |p: (Seq<char>, HookGroupView)| p.0,
                        ).subrange(0, i as int),
                    decreases gs@.len() - i,
                {
                    let ghost n0 = names.deep_view();
                    names.push(gs[i].0.clone());
                    proof {
                        assert(names.deep_view() =~~= n0.push(gs@[i as int].0@));
                        assert(names.deep_view() =~~= hook_part + gs.deep_view().map_values(
                            |p: (Seq<char>, HookGroupView)| p.0,
                        ).subrange(0, i + 1));
                    }
                    i = i + 1;
                }
            },
        }
        assert(names.deep_view() =~~= spec_hook_names(self@));
        names
    }
}

/// Where an invocation runs: worktree and repository locations.
#[derive(Debug)]
pub struct WorktreeContext {
    /// Whether the invocation is in a linked worktree.
    pub is_worktree: bool,
    /// The worktree name, when in one.
    pub worktree_name: Option<String>,
    /// The repository root.
    pub repo_root: String,
    /// The common git directory.
    pub common_dir: String,
    /// The working directory of the invocation.
    pub working_dir: String,
}

/// The view of a `WorktreeContext`.
#[verifier::ext_equal]
pub struct WorktreeContextView {
    /// Whether the invocation is in a linked worktree.
    pub is_worktree: bool,
    /// The worktree name, when in one.
    pub worktree_name: Option<Seq<char>>,
    /// The repository root.
    pub repo_root: Seq<char>,
    /// The common git directory.
    pub common_dir: Seq<char>,
    /// The working directory of the invocation.
    pub working_dir: Seq<char>,
}

impl DeepView for WorktreeContext {
    type V = WorktreeContextView;

    open spec fn deep_view(&self) -> WorktreeContextView {
        self.view()
    }
}

impl View for WorktreeContext {
    type V = WorktreeContextView;

    open spec fn view(&self) -> WorktreeContextView {
        WorktreeContextView {
            is_worktree: self.is_worktree,
            worktree_name: self.worktree_name.deep_view(),
            repo_root: self.repo_root@,
            common_dir: self.common_dir@,
            working_dir: self.working_dir@,
        }
    }
}

/// A hook definition bound to a concrete working directory and its source
/// config file, ready to execute.
#[derive(Debug)]
pub struct ResolvedHook {
    /// The definition as declared.
    pub definition: HookDefinition,
    /// The directory the child process starts in.
    pub working_directory: String,
    /// The configuration file the definition came from.
    pub source_file: String,
}

/// The view of a `ResolvedHook`.
#[verifier::ext_equal]
pub struct ResolvedHookView {
    /// The definition as declared.
    pub definition: HookDefinitionView,
    /// The directory the child process starts in.
    pub working_directory: Seq<char>,
    /// The configuration file the definition came from.
    pub source_file: Seq<char>,
}

impl DeepView for ResolvedHook {
    type V = ResolvedHookView;

    open spec fn deep_view(&self) -> ResolvedHookView {
        self.view()
    }
}

impl View for ResolvedHook {
    type V = ResolvedHookView;

    open spec fn view(&self) -> ResolvedHookView {
        ResolvedHookView {
            definition: self.definition@,
            working_directory: self.working_directory@,
            source_file: self.source_file@,
        }
    }
}

/// The hooks resolved from one configuration file for one event.
#[derive(Debug)]
pub struct ResolvedHooks {
    /// The configuration file they came from.
    pub config_path: String,
    /// The resolved hooks, by name, in resolution order.
    pub hooks: Vec<(String, ResolvedHook)>,
    /// The scheduling regime of the event's group.
    pub execution_strategy: ExecutionStrategy,
    /// The changed files this resolution saw, when a list was available.
    pub changed_files: Option<Vec<String>>,
    /// Where the invocation runs.
    pub worktree_context: WorktreeContext,
}

/// The view of a `ResolvedHooks`.
#[verifier::ext_equal]
pub struct ResolvedHooksView {
    /// The configuration file they came from.
    pub config_path: Seq<char>,
    /// The resolved hooks, by name, in resolution order.
    pub hooks: Seq<(Seq<char>, ResolvedHookView)>,
    /// The scheduling regime of the event's group.
    pub execution_strategy: ExecutionStrategy,
    /// The changed files this resolution saw, when a list was available.
    pub changed_files: Option<Seq<Seq<char>>>,
    /// Where the invocation runs.
    pub worktree_context: WorktreeContextView,
}

impl DeepView for ResolvedHooks {
    type V = ResolvedHooksView;

    open spec fn deep_view(&self) -> ResolvedHooksView {
        self.view()
    }
}

impl View for ResolvedHooks {
    type V = ResolvedHooksView;

    open spec fn view(&self) -> ResolvedHooksView {
        ResolvedHooksView {
            config_path: self.config_path@,
            hooks: self.hooks.deep_view(),
            execution_strategy: self.execution_strategy,
            changed_files: self.changed_files.deep_view(),
            worktree_context: self.worktree_context@,
        }
    }
}

/// A configuration file known to the resolver: its directory, its path,
/// and its parsed contents.
#[derive(Debug)]
pub struct ConfigEntry {
    /// The directory holding the file, as an absolute path.
    pub dir: String,
    /// The file's own path.
    pub path: String,
    /// The parsed contents.
    pub config: HookConfig,
}

/// The view of a `ConfigEntry`.
#[verifier::ext_equal]
pub struct ConfigEntryView {
    /// The directory holding the file.
    pub dir: Seq<char>,
    /// The file's own path.
    pub path: Seq<char>,
    /// The parsed contents.
    pub config: HookConfigView,
}

impl DeepView for ConfigEntry {
    type V = ConfigEntryView;

    open spec fn deep_view(&self) -> ConfigEntryView {
        self.view()
    }
}

impl View for ConfigEntry {
    type V = ConfigEntryView;

    open spec fn view(&self) -> ConfigEntryView {
        ConfigEntryView { dir: self.dir@, path: self.path@, config: self.config@ }
    }
}

/// A copy of a string vector, with the same character sequences.
pub fn clone_string_vec(v: &Vec<String>) -> (r: Vec<String>)
    ensures
        r@ == v@,
{
    let mut r: Vec<String> = Vec::new();
    let mut i: usize = 0;
    while i < v.len()
        invariant
            i <= v@.len(),
            r@ == v@.subrange(0, i as int),
        decreases v@.len() - i,
    {
        r.push(v[i].clone());
        assert(r@ =~= v@.subrange(0, i + 1));
        i = i + 1;
    }
    assert(r@ =~= v@);
    r
}

fn clone_opt_string_vec(v: &Option<Vec<String>>) -> (r: Option<Vec<String>>)
    ensures
        r.deep_view() == v.deep_view(),
{
    match v {
        None => None,
        Some(inner) => {
            let c = clone_string_vec(inner);
            assert(c.deep_view() =~~= inner.deep_view());
            Some(c)
        },
    }
}

fn clone_env(v: &Vec<(String, String)>) -> (r: Vec<(String, String)>)
    ensures
        r.deep_view() == v.deep_view(),
{
    let mut r: Vec<(String, String)> = Vec::new();
    let mut i: usize = 0;
    while i < v.len()
        invariant
            i <= v@.len(),
            r@ == v@.subrange(0, i as int),
        decreases v@.len() - i,
    {
        let pair = (v[i].0.clone(), v[i].1.clone());
        r.push(pair);
        assert(r@ =~= v@.subrange(0, i + 1));
        i = i + 1;
    }
    assert(r@ =~= v@);
    assert(r.deep_view() =~~= v.deep_view());
    r
}

impl HookCommand {
    /// A copy of this command, with the same view.
    pub fn duplicate(&self) -> (r: HookCommand)
        ensures
            r@ == self@,
    {
        match self {
            HookCommand::Shell(s) => HookCommand::Shell(s.clone()),
            HookCommand::Args(v) => {
                let c = clone_string_vec(v);
                let r = HookCommand::Args(c);
                assert(r@ =~~= self@);
                r
            },
        }
    }
}

impl HookDefinition {
    /// A copy of this definition, with the same view.
    pub fn duplicate(&self) -> (r: HookDefinition)
        ensures
            r@ == self@,
    {
        let r = HookDefinition {
            command: self.command.duplicate(),
            workdir: match &self.workdir {
                None => None,
                Some(w) => Some(w.clone()),
            },
            run_at_root: self.run_at_root,
            files: clone_opt_string_vec(&self.files),
            run_always: self.run_always,
            requires_files: self.requires_files,
            modifies_repository: self.modifies_repository,
            depends_on: clone_opt_string_vec(&self.depends_on),
            timeout_seconds: self.timeout_seconds,
            env: clone_env(&self.env),
            execution_type: self.execution_type,
        };
        assert(r@ =~~= self@);
        r
    }
}

impl WorktreeContext {
    /// A copy of this context, with the same view.
    pub fn duplicate(&self) -> (r: WorktreeContext)
        ensures
            r@ == self@,
    {
        let r = WorktreeContext {
            is_worktree: self.is_worktree,
            worktree_name: match &self.worktree_name {
                None => None,
                Some(n) => Some(n.clone()),
            },
            repo_root: self.repo_root.clone(),
            common_dir: self.common_dir.clone(),
            working_dir: self.working_dir.clone(),
        };
        assert(r@ =~~= self@);
        r
    }
}

} // verus!
