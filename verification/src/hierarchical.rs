//! Per-file nearest-config hook resolution for monorepos.
//!
//! Each changed file is associated with the configuration file nearest to
//! it on the walk from its directory up to the repository root; files that
//! share a configuration form one group, and each group's hooks are
//! resolved from that configuration alone, with no merging of parent
//! configurations. Group member lists are expanded with an explicit work
//! list, and a visited set makes cyclic references terminate.
//!
//! The filesystem is handed in as data: the embedding program lists the
//! configuration files it found (directory, path and parsed contents,
//! directories as absolute paths without a trailing slash), and every
//! function here is a pure function of that list.

use vstd::prelude::*;
use vstd::set_lib::lemma_len_subset;
use crate::changes::{glob_ok, spec_matches_any, FilePatternMatcher};
use crate::config::{
    ConfigEntry, ConfigEntryView, HookConfig, HookConfigView, HookDefinition, HookDefinitionView,
    HookGroup, HookGroupView, ResolvedHook, ResolvedHookView, ResolvedHooks, ResolvedHooksView,
    WorktreeContext, WorktreeContextView, ExecutionStrategy, spec_group_strategy,
};
use crate::errors::HookError;
use crate::util::{chars_of, push_chars, rfind_char, string_from_chars, subrange_chars};

verus! {

broadcast use {vstd::seq_lib::seq_to_set_is_finite, vstd::set::group_set_axioms};

/// The definition a name denotes: the first hook pair with that name.
pub open spec fn assoc_hook(
    hooks: Option<Seq<(Seq<char>, HookDefinitionView)>>,
    name: Seq<char>,
) -> Option<HookDefinitionView> {
    match hooks {
        None => None,
        Some(hs) => assoc_hook_in(hs, name),
    }
}

/// The first pair of `hs` keyed `name`, if any.
pub open spec fn assoc_hook_in(
    hs: Seq<(Seq<char>, HookDefinitionView)>,
    name: Seq<char>,
) -> Option<HookDefinitionView>
    decreases hs.len(),
{
    if hs.len() == 0 {
        None
    } else if hs[0].0 == name {
        Some(hs[0].1)
    } else {
        assoc_hook_in(hs.drop_first(), name)
    }
}

/// The group a name denotes: the first group pair with that name.
pub open spec fn assoc_group(
    groups: Option<Seq<(Seq<char>, HookGroupView)>>,
    name: Seq<char>,
) -> Option<HookGroupView> {
    match groups {
        None => None,
        Some(gs) => assoc_group_in(gs, name),
    }
}

/// The first pair of `gs` keyed `name`, if any.
pub open spec fn assoc_group_in(
    gs: Seq<(Seq<char>, HookGroupView)>,
    name: Seq<char>,
) -> Option<HookGroupView>
    decreases gs.len(),
{
    if gs.len() == 0 {
        None
    } else if gs[0].0 == name {
        Some(gs[0].1)
    } else {
        assoc_group_in(gs.drop_first(), name)
    }
}

/// An absolute path: one that starts with a slash.
pub open spec fn is_absolute(p: Seq<char>) -> bool {
    p.len() > 0 && p[0] == '/'
}

/// `dir` and `name` joined with a slash.
pub open spec fn spec_join(dir: Seq<char>, name: Seq<char>) -> Seq<char> {
    dir + seq!['/'] + name
}

/// The working directory a hook runs in: the repository root when
/// `run_at_root`; otherwise the declared directory, resolved against the
/// config's directory when relative; otherwise the config's directory.
pub open spec fn spec_workdir(
    def: HookDefinitionView,
    config_dir: Seq<char>,
    repo_root: Seq<char>,
) -> Seq<char> {
    if def.run_at_root {
        repo_root
    } else {
        match def.workdir {
            None => config_dir,
            Some(w) => if is_absolute(w) {
                w
            } else {
                spec_join(config_dir, w)
            },
        }
    }
}

/// Whether every pattern compiles.
pub open spec fn all_glob_ok(pats: Seq<Seq<char>>) -> bool {
    forall|i: int| 0 <= i < pats.len() ==> glob_ok(pats[i])
}

/// The first pattern that does not compile.
pub open spec fn spec_first_bad(pats: Seq<Seq<char>>) -> Seq<char>
    decreases pats.len(),
{
    if pats.len() == 0 {
        Seq::empty()
    } else if !glob_ok(pats[0]) {
        pats[0]
    } else {
        spec_first_bad(pats.drop_first())
    }
}

/// The witness of a failed pattern list is its first bad pattern.
pub proof fn lemma_first_bad(pats: Seq<Seq<char>>, i: int)
    requires
        0 <= i < pats.len(),
        !glob_ok(pats[i]),
        forall|k: int| 0 <= k < i ==> glob_ok(pats[k]),
    ensures
        spec_first_bad(pats) == pats[i],
    decreases i,
{
    if i > 0 {
        lemma_first_bad(pats.drop_first(), i - 1);
        assert(forall|k: int| 0 <= k < pats.drop_first().len() ==> pats.drop_first()[k] == pats[k
            + 1]);
    }
}

/// Whether a hook runs, given the changed files at hand: always when
/// `run_always`, when it declares no patterns, or when no file list is
/// available; otherwise when some changed file matches. A pattern that
/// does not compile is an error naming that pattern.
pub open spec fn spec_should_run(
    def: HookDefinitionView,
    changed: Option<Seq<Seq<char>>>,
) -> Result<bool, Seq<char>> {
    if def.run_always {
        Ok(true)
    } else {
        match def.files {
            None => Ok(true),
            Some(pats) => match changed {
                None => Ok(true),
                Some(files) => if all_glob_ok(pats) {
                    Ok(spec_matches_any(pats, files))
                } else {
                    Err(spec_first_bad(pats))
                },
            },
        }
    }
}

/// The view of an optional borrowed file list.
pub open spec fn opt_files_view(changed: Option<&Vec<String>>) -> Option<Seq<Seq<char>>> {
    match changed {
        None => None,
        Some(v) => Some(v.deep_view()),
    }
}

/// The working directory a hook will run in.
pub fn resolve_working_directory(
    hook_def: &HookDefinition,
    config_dir: &String,
    repo_root: &String,
) -> (r: String)
    ensures
        r@ == spec_workdir(hook_def@, config_dir@, repo_root@),
{
    if hook_def.run_at_root {
        return repo_root.clone();
    }
    match &hook_def.workdir {
        None => config_dir.clone(),
        Some(w) => {
            let wc = chars_of(w.as_str());
            if wc.len() > 0 && wc[0] == '/' {
                w.clone()
            } else {
                let mut out = chars_of(config_dir.as_str());
                out.push('/');
                push_chars(&mut out, &wc);
                let r = string_from_chars(&out);
                assert(r@ =~= spec_join(config_dir@, w@));
                r
            }
        },
    }
}

/// Whether a hook should run for the changed files at hand.
pub fn should_run_hook(hook_def: &HookDefinition, changed_files: Option<&Vec<String>>) -> (r:
    Result<bool, HookError>)
    ensures
        match spec_should_run(hook_def@, opt_files_view(changed_files)) {
            Ok(b) => r matches Ok(rb) && rb == b,
            Err(p) => r matches Err(e) && (e matches HookError::InvalidPattern { pattern }
                && pattern@ == p),
        },
{
    if hook_def.run_always {
        return Ok(true);
    }
    match &hook_def.files {
        None => Ok(true),
        Some(patterns) => match changed_files {
            None => Ok(true),
            Some(files) => match FilePatternMatcher::new(patterns) {
                Err(e) => {
                    proof {
                        let pats = patterns.deep_view();
                        let i = choose|i: int|
                            0 <= i < pats.len() && !glob_ok(pats[i]) && (forall|k: int|
                                0 <= k < i ==> glob_ok(pats[k])) && (e matches
                            HookError::InvalidPattern { pattern } && pattern@ == pats[i]);
                        lemma_first_bad(pats, i);
                    }
                    Err(e)
                },
                Ok(m) => Ok(m.matches_any(files)),
            },
        },
    }
}

/// The hook definition a name denotes in this config, if any.
fn lookup_hook<'a>(config: &'a HookConfig, name: &str) -> (r: Option<&'a HookDefinition>)
    ensures
        match r {
            Some(d) => assoc_hook(config@.hooks, name@) == Some(d@),
            None => assoc_hook(config@.hooks, name@) is None,
        },
{
    match &config.hooks {
        None => None,
        Some(hs) => {
            let mut i: usize = 0;
            assert(hs.deep_view().subrange(0, hs.deep_view().len() as int) =~~= hs.deep_view());
            while i < hs.len()
                invariant
                    i <= hs@.len(),
                    config@.hooks == Some(hs.deep_view()),
                    assoc_hook_in(hs.deep_view(), name@) == assoc_hook_in(
                        hs.deep_view().subrange(i as int, hs.deep_view().len() as int),
                        name@,
                    ),
                decreases hs@.len() - i,
            {
                let ghost tail = hs.deep_view().subrange(i as int, hs.deep_view().len() as int);
                assert(tail[0] == hs.deep_view()[i as int]);
                assert(hs.deep_view()[i as int].0 == hs@[i as int].0@);
                if crate::util::str_eq(hs[i].0.as_str(), name) {
                    assert(hs.deep_view()[i as int].1 == hs@[i as int].1@);
                    return Some(&hs[i].1);
                }
                assert(tail.drop_first() =~~= hs.deep_view().subrange(
                    i + 1,
                    hs.deep_view().len() as int,
                ));
                i = i + 1;
            }
            assert(hs.deep_view().subrange(i as int, hs.deep_view().len() as int).len() == 0);
            None
        },
    }
}

/// The names of all groups of a config.
pub open spec fn group_name_set(groups: Option<Seq<(Seq<char>, HookGroupView)>>) -> Set<Seq<char>> {
    match groups {
        None => Set::empty(),
        Some(gs) => gs.map_values(|p: (Seq<char>, HookGroupView)| p.0).to_set(),
    }
}

/// How many group names have not been visited yet; the termination
/// measure of group expansion.
pub open spec fn unvisited_groups(cfg: HookConfigView, visited: Set<Seq<char>>) -> nat {
    group_name_set(cfg.groups).difference(visited).len()
}

proof fn lemma_group_names_finite(cfg: HookConfigView)
    ensures
        group_name_set(cfg.groups).finite(),
{
    match cfg.groups {
        None => {},
        Some(gs) => {
            assert(gs.map_values(|p: (Seq<char>, HookGroupView)| p.0).to_set().finite());
        },
    }
}

proof fn lemma_assoc_group_in_names(gs: Seq<(Seq<char>, HookGroupView)>, name: Seq<char>)
    requires
        assoc_group_in(gs, name) is Some,
    ensures
        gs.map_values(|p: (Seq<char>, HookGroupView)| p.0).to_set().contains(name),
    decreases gs.len(),
{
    let names = gs.map_values(|p: (Seq<char>, HookGroupView)| p.0);
    if gs.len() > 0 {
        if gs[0].0 == name {
            assert(names[0] == name);
            assert(names.contains(name));
        } else {
            lemma_assoc_group_in_names(gs.drop_first(), name);
            let tail_names = gs.drop_first().map_values(|p: (Seq<char>, HookGroupView)| p.0);
            let j = choose|j: int| 0 <= j < tail_names.len() && tail_names[j] == name;
            assert(names[j + 1] == name);
            assert(names.contains(name));
        }
    }
}

/// Whether `acc` already holds an entry named `name`.
pub open spec fn acc_has(acc: Seq<(Seq<char>, ResolvedHookView)>, name: Seq<char>) -> bool {
    exists|i: int| 0 <= i < acc.len() && acc[i].0 == name
}

/// `acc` with `(name, rh)` appended, unless `name` is already present.
pub open spec fn acc_put(
    acc: Seq<(Seq<char>, ResolvedHookView)>,
    name: Seq<char>,
    rh: ResolvedHookView,
) -> Seq<(Seq<char>, ResolvedHookView)> {
    if acc_has(acc, name) {
        acc
    } else {
        acc.push((name, rh))
    }
}

/// Depth-first expansion of a work list of member names against one
/// config. A name already visited is skipped; a hook name contributes a
/// resolved hook when it passes the `requires_files` and file-pattern
/// tests; a group name queues its own members ahead of the rest. The
/// result is the final visited set and accumulated hooks, or the first
/// pattern that failed to compile.
pub open spec fn spec_expand(
    cfg: HookConfigView,
    config_dir: Seq<char>,
    config_path: Seq<char>,
    repo_root: Seq<char>,
    changed: Option<Seq<Seq<char>>>,
    work: Seq<Seq<char>>,
    visited: Set<Seq<char>>,
    acc: Seq<(Seq<char>, ResolvedHookView)>,
) -> Result<(Set<Seq<char>>, Seq<(Seq<char>, ResolvedHookView)>), Seq<char>>
    decreases unvisited_groups(cfg, visited), work.len()
    via spec_expand_decreases
{
    if work.len() == 0 {
        Ok((visited, acc))
    } else {
        let name = work[0];
        if visited.contains(name) {
            spec_expand(cfg, config_dir, config_path, repo_root, changed, work.drop_first(),
                visited, acc)
        } else {
            let visited2 = visited.insert(name);
            match assoc_hook(cfg.hooks, name) {
                Some(def) => {
                    if def.requires_files && changed is None {
                        spec_expand(cfg, config_dir, config_path, repo_root, changed,
                            work.drop_first(), visited2, acc)
                    } else {
                        match spec_should_run(def, changed) {
                            Err(p) => Err(p),
                            Ok(run) => {
                                let acc2 = if run {
                                    acc_put(acc, name, ResolvedHookView {
                                        definition: def,
                                        working_directory: spec_workdir(def, config_dir, repo_root),
                                        source_file: config_path,
                                    })
                                } else {
                                    acc
                                };
                                spec_expand(cfg, config_dir, config_path, repo_root, changed,
                                    work.drop_first(), visited2, acc2)
                            },
                        }
                    }
                },
                None => {
                    match assoc_group(cfg.groups, name) {
                        Some(g) => spec_expand(cfg, config_dir, config_path, repo_root, changed,
                            g.includes + work.drop_first(), visited2, acc),
                        None => spec_expand(cfg, config_dir, config_path, repo_root, changed,
                            work.drop_first(), visited2, acc),
                    }
                },
            }
        }
    }
}

#[via_fn]
proof fn spec_expand_decreases(
    cfg: HookConfigView,
    config_dir: Seq<char>,
    config_path: Seq<char>,
    repo_root: Seq<char>,
    changed: Option<Seq<Seq<char>>>,
    work: Seq<Seq<char>>,
    visited: Set<Seq<char>>,
    acc: Seq<(Seq<char>, ResolvedHookView)>,
) {
    lemma_group_names_finite(cfg);
    let g = group_name_set(cfg.groups);
    vstd::set::axiom_set_difference_finite(g, visited);
    if work.len() > 0 {
        let name = work[0];
        if !visited.contains(name) {
            let visited2 = visited.insert(name);
            assert(g.difference(visited2).subset_of(g.difference(visited)));
            vstd::set::axiom_set_difference_finite(g, visited2);
            lemma_len_subset(g.difference(visited2), g.difference(visited));
            if assoc_hook(cfg.hooks, name) is None && assoc_group(cfg.groups, name) is Some {
                match cfg.groups {
                    Some(gs) => {
                        lemma_assoc_group_in_names(gs, name);
                        g.lemma_set_insert_diff_decreases(visited, name);
                    },
                    None => {},
                }
            }
        }
    }
}

/// The visited names held by the vector, as a set of character sequences.
pub open spec fn vstr_set(v: Seq<String>) -> Set<Seq<char>> {
    Set::new(|x: Seq<char>| exists|i: int| 0 <= i < v.len() && v[i]@ == x)
}

/// Pushing a name onto the visited vector inserts its text into the
/// visited set.
pub proof fn lemma_vstr_set_push(v: Seq<String>, n: String)
    ensures
        vstr_set(v.push(n)) =~= vstr_set(v).insert(n@),
{
    assert forall|x: Seq<char>| vstr_set(v).insert(n@).contains(x) implies vstr_set(
        v.push(n),
    ).contains(x) by {
        if x == n@ {
            assert(v.push(n)[v.len() as int]@ == x);
        } else {
            let i = choose|i: int| 0 <= i < v.len() && v[i]@ == x;
            assert(v.push(n)[i]@ == x);
        }
    }
    assert forall|x: Seq<char>| vstr_set(v.push(n)).contains(x) implies vstr_set(v).insert(
        n@,
    ).contains(x) by {
        let i = choose|i: int| 0 <= i < v.push(n).len() && v.push(n)[i]@ == x;
        if i < v.len() {
            assert(v[i]@ == x);
        } else {
            assert(x == n@);
        }
    }
}

fn contains_str(v: &Vec<String>, name: &String) -> (r: bool)
    ensures
        r == vstr_set(v@).contains(name@),
{
    let mut i: usize = 0;
    while i < v.len()
        invariant
            i <= v@.len(),
            forall|j: int| 0 <= j < i ==> v@[j]@ != name@,
        decreases v@.len() - i,
    {
        if v[i].eq(name) {
            return true;
        }
        i = i + 1;
    }
    false
}

fn acc_contains(resolved: &Vec<(String, ResolvedHook)>, name: &String) -> (r: bool)
    ensures
        r == acc_has(resolved.deep_view(), name@),
{
    let mut i: usize = 0;
    while i < resolved.len()
        invariant
            i <= resolved@.len(),
            forall|j: int| 0 <= j < i ==> resolved.deep_view()[j].0 != name@,
        decreases resolved@.len() - i,
    {
        assert(resolved.deep_view()[i as int].0 == resolved@[i as int].0@);
        if resolved[i].0.eq(name) {
            return true;
        }
        i = i + 1;
    }
    false
}

/// Expand a group's member list against its config, adding the resolved
/// hooks to `resolved_hooks`. The work list carries the names still to
/// expand; a visited set guards against cyclic group references.
fn resolve_group_hooks(
    group: &HookGroup,
    config: &HookConfig,
    config_dir: &String,
    config_path: &String,
    repo_root: &String,
    resolved_hooks: &mut Vec<(String, ResolvedHook)>,
    changed_files: Option<&Vec<String>>,
) -> (r: Result<(), HookError>)
    ensures
        match spec_expand(
            config@,
            config_dir@,
            config_path@,
            repo_root@,
            opt_files_view(changed_files),
            group@.includes,
            Set::empty(),
            old(resolved_hooks).deep_view(),
        ) {
            Ok(pair) => r is Ok && final(resolved_hooks).deep_view() == pair.1,
            Err(p) => r matches Err(e) && (e matches HookError::InvalidPattern { pattern }
                && pattern@ == p),
        },
{
    let ghost cfgv = config@;
    let ghost dirv = config_dir@;
    let ghost pathv = config_path@;
    let ghost rootv = repo_root@;
    let ghost chv = opt_files_view(changed_files);
    let ghost target = spec_expand(cfgv, dirv, pathv, rootv, chv, group@.includes, Set::empty(),
        old(resolved_hooks).deep_view());
    let mut work: Vec<String> = crate::config::clone_string_vec(&group.includes);
    assert(work.deep_view() =~~= group@.includes);
    let mut visited: Vec<String> = Vec::new();
    assert(vstr_set(visited@) =~= Set::<Seq<char>>::empty());
    while work.len() > 0
        invariant
            spec_expand(cfgv, dirv, pathv, rootv, chv, work.deep_view(), vstr_set(visited@),
                resolved_hooks.deep_view()) == target,
            target == spec_expand(cfgv, dirv, pathv, rootv, chv, group@.includes, Set::empty(),
                old(resolved_hooks).deep_view()),
            cfgv == config@,
            dirv == config_dir@,
            pathv == config_path@,
            rootv == repo_root@,
            chv == opt_files_view(changed_files),
        decreases unvisited_groups(cfgv, vstr_set(visited@)), work.deep_view().len(),
    {
        let ghost w0 = work.deep_view();
        let ghost vis0 = vstr_set(visited@);
        let ghost a0 = resolved_hooks.deep_view();
        proof {
            lemma_group_names_finite(cfgv);
            vstd::set::axiom_set_difference_finite(group_name_set(cfgv.groups), vis0);
        }
        let name = work.remove(0);
        assert(work.deep_view() =~~= w0.drop_first());
        assert(name@ == w0[0]);
        if contains_str(&visited, &name) {
            proof {
                assert(spec_expand(cfgv, dirv, pathv, rootv, chv, w0, vis0, a0) == spec_expand(
                    cfgv, dirv, pathv, rootv, chv, w0.drop_first(), vis0, a0));
            }
            continue;
        }
        let name_held = name.clone();
        let ghost oldvis = visited@;
        let ghost name_held_g = name_held;
        visited.push(name_held);
        proof {
            assert(visited@ =~= oldvis.push(name_held_g));
            lemma_vstr_set_push(oldvis, name_held_g);
            assert(vstr_set(visited@) =~= vis0.insert(name@));
        }
        let ghost vis2 = vstr_set(visited@);
        assert(vis2 == vis0.insert(name@));
        proof {
            let g = group_name_set(cfgv.groups);
            assert(g.difference(vis2).subset_of(g.difference(vis0)));
            vstd::set::axiom_set_difference_finite(g, vis2);
            lemma_len_subset(g.difference(vis2), g.difference(vis0));
        }
        match lookup_hook(config, name.as_str()) {
            Some(def) => {
                if def.requires_files && changed_files.is_none() {
                    proof {
                        assert(spec_expand(cfgv, dirv, pathv, rootv, chv, w0, vis0, a0)
                            == spec_expand(cfgv, dirv, pathv, rootv, chv, w0.drop_first(), vis2,
                            a0));
                    }
                } else {
                    match should_run_hook(def, changed_files) {
                        Err(e) => {
                            proof {
                                assert(match spec_should_run(def@, chv) {
                                    Err(p) => spec_expand(cfgv, dirv, pathv, rootv, chv, w0, vis0,
                                        a0) == Err::<
                                        (Set<Seq<char>>, Seq<(Seq<char>, ResolvedHookView)>),
                                        Seq<char>,
                                    >(p),
                                    Ok(_) => false,
                                });
                            }
                            return Err(e);
                        },
                        Ok(run) => {
                            if run {
                                let wd = resolve_working_directory(def, config_dir, repo_root);
                                let ghost rhv = ResolvedHookView {
                                    definition: def@,
                                    working_directory: spec_workdir(def@, dirv, rootv),
                                    source_file: pathv,
                                };
                                if !acc_contains(resolved_hooks, &name) {
                                    let rh = ResolvedHook {
                                        definition: def.duplicate(),
                                        working_directory: wd,
                                        source_file: config_path.clone(),
                                    };
                                    resolved_hooks.push((name.clone(), rh));
                                    assert(resolved_hooks.deep_view() =~~= a0.push((name@, rhv)));
                                }
                                proof {
                                    assert(resolved_hooks.deep_view() =~~= acc_put(a0, name@, rhv));
                                    assert(spec_expand(cfgv, dirv, pathv, rootv, chv, w0, vis0, a0)
                                        == spec_expand(cfgv, dirv, pathv, rootv, chv,
                                        w0.drop_first(), vis2, acc_put(a0, name@, rhv)));
                                }
                            } else {
                                proof {
                                    assert(spec_expand(cfgv, dirv, pathv, rootv, chv, w0, vis0, a0)
                                        == spec_expand(cfgv, dirv, pathv, rootv, chv,
                                        w0.drop_first(), vis2, a0));
                                }
                            }
                        },
                    }
                }
            },
            None => {
                match lookup_group(config, name.as_str()) {
                    Some(g) => {
                        proof {
                            match cfgv.groups {
                                Some(gs) => {
                                    lemma_assoc_group_in_names(gs, name@);
                                    group_name_set(cfgv.groups).lemma_set_insert_diff_decreases(
                                        vis0, name@);
                                },
                                None => {},
                            }
                        }
                        let mut pre = crate::config::clone_string_vec(&g.includes);
                        pre.append(&mut work);
                        work = pre;
                        proof {
                            assert(work.deep_view() =~~= g@.includes + w0.drop_first());
                            assert(spec_expand(cfgv, dirv, pathv, rootv, chv, w0, vis0, a0)
                                == spec_expand(cfgv, dirv, pathv, rootv, chv, g@.includes
                                + w0.drop_first(), vis2, a0));
                        }
                    },
                    None => {
                        proof {
                            assert(spec_expand(cfgv, dirv, pathv, rootv, chv, w0, vis0, a0)
                                == spec_expand(cfgv, dirv, pathv, rootv, chv, w0.drop_first(),
                                vis2, a0));
                        }
                    },
                }
            },
        }
    }
    proof {
        assert(spec_expand(cfgv, dirv, pathv, rootv, chv, work.deep_view(), vstr_set(visited@),
            resolved_hooks.deep_view()) == Ok::<_, Seq<char>>((vstr_set(visited@),
            resolved_hooks.deep_view())));
    }
    Ok(())
}

/// What one config yields for an event: a hook named like the event
/// contributes directly (subject to file filtering); a group named like
/// the event has its members expanded, unless it is a placeholder, which
/// yields nothing at all. With neither, or with nothing left after
/// filtering, the event is not defined here.
pub open spec fn spec_resolve_event(
    cfg: HookConfigView,
    config_path: Seq<char>,
    config_dir: Seq<char>,
    repo_root: Seq<char>,
    event: Seq<char>,
    changed: Option<Seq<Seq<char>>>,
    wt: WorktreeContextView,
) -> Result<Option<ResolvedHooksView>, Seq<char>> {
    let direct = match assoc_hook(cfg.hooks, event) {
        Some(def) => match spec_should_run(def, changed) {
            Err(p) => Err(p),
            Ok(true) => Ok(
                seq![
                    (
                        event,
                        ResolvedHookView {
                            definition: def,
                            working_directory: spec_workdir(def, config_dir, repo_root),
                            source_file: config_path,
                        },
                    ),
                ],
            ),
            Ok(false) => Ok(Seq::empty()),
        },
        None => Ok(Seq::empty()),
    };
    match direct {
        Err(p) => Err(p),
        Ok(acc0) => match assoc_group(cfg.groups, event) {
            Some(g) => {
                if g.placeholder == Some(true) {
                    Ok(None)
                } else {
                    match spec_expand(cfg, config_dir, config_path, repo_root, changed, g.includes,
                        Set::empty(), acc0) {
                        Err(p) => Err(p),
                        Ok(pair) => if pair.1.len() == 0 {
                            Ok(None)
                        } else {
                            Ok(
                                Some(
                                    ResolvedHooksView {
                                        config_path,
                                        hooks: pair.1,
                                        execution_strategy: spec_group_strategy(g),
                                        changed_files: changed,
                                        worktree_context: wt,
                                    },
                                ),
                            )
                        },
                    }
                }
            },
            None => if acc0.len() == 0 {
                Ok(None)
            } else {
                Ok(
                    Some(
                        ResolvedHooksView {
                            config_path,
                            hooks: acc0,
                            execution_strategy: ExecutionStrategy::Sequential,
                            changed_files: changed,
                            worktree_context: wt,
                        },
                    ),
                )
            },
        },
    }
}

/// A placeholder group yields no hooks for its event, whatever its
/// member list holds, as long as the direct hook of the same name (if
/// any) does not fail pattern compilation first.
pub proof fn lemma_placeholder_contributes_nothing(
    cfg: HookConfigView,
    config_path: Seq<char>,
    config_dir: Seq<char>,
    repo_root: Seq<char>,
    event: Seq<char>,
    changed: Option<Seq<Seq<char>>>,
    wt: WorktreeContextView,
)
    requires
        assoc_group(cfg.groups, event) matches Some(g) && g.placeholder == Some(true),
        match assoc_hook(cfg.hooks, event) {
            Some(def) => !(spec_should_run(def, changed) is Err),
            None => true,
        },
    ensures
        spec_resolve_event(cfg, config_path, config_dir, repo_root, event, changed, wt)
            == Ok::<Option<ResolvedHooksView>, Seq<char>>(None),
{
}

/// Resolve one event against one configuration file.
fn resolve_event_for_config(
    entry: &ConfigEntry,
    event: &str,
    repo_root: &String,
    changed_files: Option<&Vec<String>>,
    worktree_context: &WorktreeContext,
) -> (r: Result<Option<ResolvedHooks>, HookError>)
    ensures
        match spec_resolve_event(
            entry@.config,
            entry@.path,
            entry@.dir,
            repo_root@,
            event@,
            opt_files_view(changed_files),
            worktree_context@,
        ) {
            Ok(opt) => r matches Ok(o) && (match (o, opt) {
                (Some(rh), Some(rv)) => rh@ == rv,
                (None, None) => true,
                _ => false,
            }),
            Err(p) => r matches Err(e) && (e matches HookError::InvalidPattern { pattern }
                && pattern@ == p),
        },
{
    let ghost chv = opt_files_view(changed_files);
    let mut resolved: Vec<(String, ResolvedHook)> = Vec::new();
    match lookup_hook(&entry.config, event) {
        Some(def) => {
            match should_run_hook(def, changed_files) {
                Err(e) => {
                    return Err(e);
                },
                Ok(true) => {
                    let wd = resolve_working_directory(def, &entry.dir, repo_root);
                    let rh = ResolvedHook {
                        definition: def.duplicate(),
                        working_directory: wd,
                        source_file: entry.path.clone(),
                    };
                    resolved.push((event.to_owned(), rh));
                    assert(resolved.deep_view() =~~= seq![
                        (
                            event@,
                            ResolvedHookView {
                                definition: def@,
                                working_directory: spec_workdir(def@, entry@.dir, repo_root@),
                                source_file: entry@.path,
                            },
                        ),
                    ]);
                },
                Ok(false) => {
                    assert(resolved.deep_view() =~~= Seq::<(Seq<char>, ResolvedHookView)>::empty());
                },
            }
        },
        None => {
            assert(resolved.deep_view() =~~= Seq::<(Seq<char>, ResolvedHookView)>::empty());
        },
    }
    let ghost acc0 = resolved.deep_view();
    let mut strategy = ExecutionStrategy::Sequential;
    match lookup_group(&entry.config, event) {
        Some(g) => {
            let is_placeholder = match g.placeholder {
                Some(p) => p,
                None => false,
            };
            if is_placeholder {
                return Ok(None);
            }
            strategy = g.get_execution_strategy();
            match resolve_group_hooks(
                g,
                &entry.config,
                &entry.dir,
                &entry.path,
                repo_root,
                &mut resolved,
                changed_files,
            ) {
                Err(e) => {
                    return Err(e);
                },
                Ok(_) => {},
            }
        },
        None => {},
    }
    if resolved.len() == 0 {
        return Ok(None);
    }
    let changed_held: Option<Vec<String>> = match changed_files {
        None => None,
        Some(v) => Some(crate::config::clone_string_vec(v)),
    };
    let out = ResolvedHooks {
        config_path: entry.path.clone(),
        hooks: resolved,
        execution_strategy: strategy,
        changed_files: changed_held,
        worktree_context: worktree_context.duplicate(),
    };
    proof {
        assert(out@.changed_files =~~= chv);
        assert(match spec_resolve_event(entry@.config, entry@.path, entry@.dir, repo_root@,
            event@, chv, worktree_context@) {
            Ok(opt) => opt matches Some(rv) && out@ =~~= rv,
            Err(_) => false,
        });
    }
    Ok(Some(out))
}

/// The parent directory of a path: the text before the last slash; the
/// root for a top-level entry; nothing for the root itself or a path with
/// no slash.
pub open spec fn parent_dir(d: Seq<char>) -> Option<Seq<char>> {
    match rfind_char(d, '/') {
        None => None,
        Some(j) => if j == 0 {
            if d.len() == 1 {
                None
            } else {
                Some(seq!['/'])
            }
        } else {
            Some(d.subrange(0, j))
        },
    }
}

/// The first config entry whose directory is `d`, from position `i` on.
pub open spec fn spec_dir_index_from(entries: Seq<ConfigEntryView>, d: Seq<char>, i: int) -> Option<
    int,
>
    decreases entries.len() - i when 0 <= i <= entries.len()
{
    if i >= entries.len() {
        None
    } else if entries[i].dir == d {
        Some(i)
    } else {
        spec_dir_index_from(entries, d, i + 1)
    }
}

/// The nearest config at or above directory `d`: the first entry for `d`
/// itself, else the walk continues at the parent, stopping at the
/// repository root.
pub open spec fn spec_nearest_dir(
    entries: Seq<ConfigEntryView>,
    d: Seq<char>,
    repo_root: Seq<char>,
) -> Option<int>
    decreases d.len() via spec_nearest_dir_decreases
{
    match spec_dir_index_from(entries, d, 0) {
        Some(i) => Some(i),
        None => if d == repo_root {
            None
        } else {
            match parent_dir(d) {
                None => None,
                Some(p) => spec_nearest_dir(entries, p, repo_root),
            }
        },
    }
}

#[via_fn]
proof fn spec_nearest_dir_decreases(entries: Seq<ConfigEntryView>, d: Seq<char>, repo_root: Seq<
    char,
>) {
    crate::util::lemma_rfind_char(d, '/');
}

/// The nearest config for a file: the walk starts at the file's parent
/// directory.
pub open spec fn spec_nearest_for_file(
    entries: Seq<ConfigEntryView>,
    file_abs: Seq<char>,
    repo_root: Seq<char>,
) -> Option<int> {
    match parent_dir(file_abs) {
        None => None,
        Some(p) => spec_nearest_dir(entries, p, repo_root),
    }
}

fn dir_index(entries: &Vec<ConfigEntry>, d: &String) -> (r: Option<usize>)
    ensures
        (match r {
            Some(i) => Some(i as int),
            None => None::<int>,
        }) == spec_dir_index_from(entries.deep_view(), d@, 0),
        r matches Some(i) ==> i < entries@.len(),
{
    let mut i: usize = 0;
    while i < entries.len()
        invariant
            i <= entries@.len(),
            spec_dir_index_from(entries.deep_view(), d@, 0) == spec_dir_index_from(
                entries.deep_view(),
                d@,
                i as int,
            ),
        decreases entries@.len() - i,
    {
        assert(entries.deep_view()[i as int] == entries@[i as int]@);
        if entries[i].dir.eq(d) {
            return Some(i);
        }
        i = i + 1;
    }
    None
}

fn parent_dir_exec(d: &String) -> (r: Option<String>)
    ensures
        match (r, parent_dir(d@)) {
            (Some(p), Some(sp)) => p@ == sp,
            (None, None) => true,
            _ => false,
        },
        r matches Some(p) ==> p@.len() < d@.len(),
{
    let cs = chars_of(d.as_str());
    proof {
        crate::util::lemma_rfind_char(cs@, '/');
    }
    match crate::util::rfind_char_exec(&cs, '/') {
        None => None,
        Some(j) => {
            if j == 0 {
                if cs.len() == 1 {
                    None
                } else {
                    let root = "/".to_owned();
                    proof {
                        reveal_strlit("/");
                        assert(root@ =~= seq!['/']);
                    }
                    Some(root)
                }
            } else {
                let p = subrange_chars(&cs, 0, j);
                Some(string_from_chars(&p))
            }
        },
    }
}

fn nearest_entry_from_dir(entries: &Vec<ConfigEntry>, start_dir: &String, repo_root: &String) -> (r:
    Option<usize>)
    ensures
        (match r {
            Some(ix) => Some(ix as int),
            None => None::<int>,
        }) == spec_nearest_dir(entries.deep_view(), start_dir@, repo_root@),
        r matches Some(ix) ==> ix < entries@.len(),
{
    let mut current: String = start_dir.clone();
    loop
        invariant
            spec_nearest_dir(entries.deep_view(), start_dir@, repo_root@) == spec_nearest_dir(
                entries.deep_view(),
                current@,
                repo_root@,
            ),
        decreases current@.len(),
    {
        match dir_index(entries, &current) {
            Some(i) => {
                return Some(i);
            },
            None => {},
        }
        if current.eq(repo_root) {
            return None;
        }
        match parent_dir_exec(&current) {
            None => {
                return None;
            },
            Some(p) => {
                current = p;
            },
        }
    }
}

/// The nearest configuration file for a file path: the first config
/// found on the walk from the file's directory up to the repository
/// root. Returns the config file's path.
pub fn find_nearest_config_for_file(
    file_path: &String,
    repo_root: &String,
    configs: &Vec<ConfigEntry>,
) -> (r: Option<String>)
    ensures
        match spec_nearest_for_file(configs.deep_view(), file_path@, repo_root@) {
            Some(ix) => r matches Some(p) && p@ == configs.deep_view()[ix].path,
            None => r is None,
        },
{
    match parent_dir_exec(file_path) {
        None => None,
        Some(pd) => match nearest_entry_from_dir(configs, &pd, repo_root) {
            None => None,
            Some(ix) => {
                assert(configs.deep_view()[ix as int].path == configs@[ix as int]@.path);
                Some(configs[ix].path.clone())
            },
        },
    }
}

/// A group of files that share the same nearest configuration, with the
/// hooks that configuration yields for the event.
#[derive(Debug)]
pub struct ConfigGroup {
    /// The configuration file path.
    pub config_path: String,
    /// The files that resolved to this configuration.
    pub files: Vec<String>,
    /// The resolved hooks of this configuration.
    pub resolved_hooks: ResolvedHooks,
}

/// The view of a `ConfigGroup`.
#[verifier::ext_equal]
pub struct ConfigGroupView {
    /// The configuration file path.
    pub config_path: Seq<char>,
    /// The files that resolved to this configuration.
    pub files: Seq<Seq<char>>,
    /// The resolved hooks of this configuration.
    pub resolved_hooks: ResolvedHooksView,
}

impl View for ConfigGroup {
    type V = ConfigGroupView;

    open spec fn view(&self) -> ConfigGroupView {
        ConfigGroupView {
            config_path: self.config_path@,
            files: self.files.deep_view(),
            resolved_hooks: self.resolved_hooks@,
        }
    }
}

impl DeepView for ConfigGroup {
    type V = ConfigGroupView;

    open spec fn deep_view(&self) -> ConfigGroupView {
        self.view()
    }
}

/// A file path made absolute against the repository root.
pub open spec fn spec_abs(file: Seq<char>, root: Seq<char>) -> Seq<char> {
    if is_absolute(file) {
        file
    } else {
        spec_join(root, file)
    }
}

/// The first bucket keyed `k`, from position `j` on.
pub open spec fn spec_bucket_index_from(
    buckets: Seq<(int, Seq<Seq<char>>)>,
    k: int,
    j: int,
) -> Option<int>
    decreases buckets.len() - j when 0 <= j <= buckets.len()
{
    if j >= buckets.len() {
        None
    } else if buckets[j].0 == k {
        Some(j)
    } else {
        spec_bucket_index_from(buckets, k, j + 1)
    }
}

/// `buckets` with `f` added to the bucket keyed `k`, which is created at
/// the end when absent.
pub open spec fn spec_bucket_add(
    buckets: Seq<(int, Seq<Seq<char>>)>,
    k: int,
    f: Seq<char>,
) -> Seq<(int, Seq<Seq<char>>)> {
    match spec_bucket_index_from(buckets, k, 0) {
        None => buckets.push((k, seq![f])),
        Some(j) => buckets.update(j, (k, buckets[j].1.push(f))),
    }
}

/// The files from position `i` on, bucketed by the index of their
/// nearest config entry; files with no config in their ancestry are
/// dropped.
pub open spec fn spec_buckets(
    files: Seq<Seq<char>>,
    i: int,
    acc: Seq<(int, Seq<Seq<char>>)>,
    entries: Seq<ConfigEntryView>,
    root: Seq<char>,
) -> Seq<(int, Seq<Seq<char>>)>
    decreases files.len() - i when 0 <= i <= files.len()
{
    if i >= files.len() {
        acc
    } else {
        let abs = spec_abs(files[i], root);
        match spec_nearest_for_file(entries, abs, root) {
            None => spec_buckets(files, i + 1, acc, entries, root),
            Some(ix) => spec_buckets(files, i + 1, spec_bucket_add(acc, ix, files[i]), entries,
                root),
        }
    }
}

/// Each bucket resolved against its config entry, from position `j` on;
/// buckets whose config does not define the event are dropped.
pub open spec fn spec_resolve_buckets(
    buckets: Seq<(int, Seq<Seq<char>>)>,
    j: int,
    entries: Seq<ConfigEntryView>,
    root: Seq<char>,
    event: Seq<char>,
    wt: WorktreeContextView,
) -> Result<Seq<ConfigGroupView>, Seq<char>>
    decreases buckets.len() - j when 0 <= j <= buckets.len()
{
    if j >= buckets.len() {
        Ok(Seq::empty())
    } else {
        let k = buckets[j].0;
        let bf = buckets[j].1;
        match spec_resolve_event(entries[k].config, entries[k].path, entries[k].dir, root, event,
            Some(bf), wt) {
            Err(p) => Err(p),
            Ok(None) => spec_resolve_buckets(buckets, j + 1, entries, root, event, wt),
            Ok(Some(rv)) => match spec_resolve_buckets(buckets, j + 1, entries, root, event, wt) {
                Err(p) => Err(p),
                Ok(rest) => Ok(
                    seq![
                        ConfigGroupView {
                            config_path: entries[k].path,
                            files: bf,
                            resolved_hooks: rv,
                        },
                    ] + rest,
                ),
            },
        }
    }
}

/// What grouping and resolving a changed-file list yields.
pub open spec fn spec_group_files(
    files: Seq<Seq<char>>,
    root: Seq<char>,
    event: Seq<char>,
    wt: WorktreeContextView,
    entries: Seq<ConfigEntryView>,
) -> Result<Seq<ConfigGroupView>, Seq<char>> {
    spec_resolve_buckets(spec_buckets(files, 0, Seq::empty(), entries, root), 0, entries, root,
        event, wt)
}

/// The view of the exec bucket list.
pub open spec fn buckets_view(b: Seq<(usize, Vec<String>)>) -> Seq<(int, Seq<Seq<char>>)> {
    Seq::new(b.len(), |j: int| (b[j].0 as int, b[j].1.deep_view()))
}

fn bucket_index(buckets: &Vec<(usize, Vec<String>)>, k: usize) -> (r: Option<usize>)
    ensures
        (match r {
            Some(j) => Some(j as int),
            None => None::<int>,
        }) == spec_bucket_index_from(buckets_view(buckets@), k as int, 0),
        r matches Some(j) ==> j < buckets@.len() && buckets@[j as int].0 == k,
{
    let mut j: usize = 0;
    while j < buckets.len()
        invariant
            j <= buckets@.len(),
            spec_bucket_index_from(buckets_view(buckets@), k as int, 0) == spec_bucket_index_from(
                buckets_view(buckets@),
                k as int,
                j as int,
            ),
        decreases buckets@.len() - j,
    {
        if buckets[j].0 == k {
            return Some(j);
        }
        j = j + 1;
    }
    None
}

fn absolute_file(file: &String, repo_root: &String) -> (r: String)
    ensures
        r@ == spec_abs(file@, repo_root@),
{
    let fc = chars_of(file.as_str());
    if fc.len() > 0 && fc[0] == '/' {
        file.clone()
    } else {
        let mut out = chars_of(repo_root.as_str());
        out.push('/');
        push_chars(&mut out, &fc);
        let r = string_from_chars(&out);
        assert(r@ =~= spec_join(repo_root@, file@));
        r
    }
}

/// Group changed files by their nearest configuration and resolve each
/// group's hooks for the event. Files with no config in their ancestry
/// are dropped; configs that do not define the event contribute no
/// group.
pub fn group_files_by_config(
    changed_files: &Vec<String>,
    repo_root: &String,
    event: &str,
    worktree_context: &WorktreeContext,
    configs: &Vec<ConfigEntry>,
) -> (r: Result<Vec<ConfigGroup>, HookError>)
    ensures
        match spec_group_files(
            changed_files.deep_view(),
            repo_root@,
            event@,
            worktree_context@,
            configs.deep_view(),
        ) {
            Ok(gs) => r matches Ok(v) && v.deep_view() == gs,
            Err(p) => r matches Err(e) && (e matches HookError::InvalidPattern { pattern }
                && pattern@ == p),
        },
{
    let ghost fv = changed_files.deep_view();
    let ghost ev = configs.deep_view();
    let ghost rootv = repo_root@;
    let mut buckets: Vec<(usize, Vec<String>)> = Vec::new();
    let mut i: usize = 0;
    assert(buckets_view(buckets@) =~~= Seq::<(int, Seq<Seq<char>>)>::empty());
    while i < changed_files.len()
        invariant
            i <= changed_files@.len(),
            fv == changed_files.deep_view(),
            ev == configs.deep_view(),
            rootv == repo_root@,
            spec_buckets(fv, i as int, buckets_view(buckets@), ev, rootv) == spec_buckets(
                fv,
                0,
                Seq::empty(),
                ev,
                rootv,
            ),
            forall|j: int| 0 <= j < buckets@.len() ==> buckets@[j].0 < configs@.len(),
        decreases changed_files@.len() - i,
    {
        let ghost b0 = buckets_view(buckets@);
        assert(fv[i as int] == changed_files@[i as int]@);
        let abs = absolute_file(&changed_files[i], repo_root);
        match parent_dir_exec(&abs) {
            None => {
                assert(spec_nearest_for_file(ev, spec_abs(fv[i as int], rootv), rootv) is None);
            },
            Some(pd) => {
                match nearest_entry_from_dir(configs, &pd, repo_root) {
                    None => {
                        assert(spec_nearest_for_file(ev, spec_abs(fv[i as int], rootv), rootv)
                            is None);
                    },
                    Some(ix) => {
                        assert(spec_nearest_for_file(ev, spec_abs(fv[i as int], rootv), rootv)
                            == Some(ix as int));
                        match bucket_index(&buckets, ix) {
                            None => {
                                let mut nf: Vec<String> = Vec::new();
                                nf.push(changed_files[i].clone());
                                buckets.push((ix, nf));
                                assert(buckets_view(buckets@) =~~= spec_bucket_add(
                                    b0,
                                    ix as int,
                                    fv[i as int],
                                ));
                            },
                            Some(j) => {
                                let ghost bpre = buckets@;
                                let mut pair = buckets.remove(j);
                                let ghost p0 = pair;
                                pair.1.push(changed_files[i].clone());
                                let ghost p1 = pair;
                                buckets.insert(j, pair);
                                proof {
                                    assert(buckets@ =~= bpre.update(j as int, p1));
                                    assert(p1.1@ =~= p0.1@.push(changed_files@[i as int]));
                                    assert(p1.1.deep_view() =~~= b0[j as int].1.push(
                                        fv[i as int],
                                    ));
                                    assert(buckets_view(buckets@) =~~= spec_bucket_add(
                                        b0,
                                        ix as int,
                                        fv[i as int],
                                    ));
                                }
                            },
                        }
                    },
                }
            },
        }
        i = i + 1;
    }
    let ghost bv = buckets_view(buckets@);
    assert(spec_buckets(fv, fv.len() as int, bv, ev, rootv) == bv);
    let mut out: Vec<ConfigGroup> = Vec::new();
    let mut j: usize = 0;
    assert(out.deep_view() =~~= Seq::<ConfigGroupView>::empty());
    while j < buckets.len()
        invariant
            j <= buckets@.len(),
            ev == configs.deep_view(),
            rootv == repo_root@,
            fv == changed_files.deep_view(),
            bv == buckets_view(buckets@),
            bv == spec_buckets(fv, 0, Seq::empty(), ev, rootv),
            forall|m: int| 0 <= m < buckets@.len() ==> buckets@[m].0 < configs@.len(),
            match spec_resolve_buckets(bv, j as int, ev, rootv, event@, worktree_context@) {
                Ok(rest) => spec_resolve_buckets(bv, 0, ev, rootv, event@, worktree_context@)
                    == Ok::<_, Seq<char>>(out.deep_view() + rest),
                Err(p) => spec_resolve_buckets(bv, 0, ev, rootv, event@, worktree_context@)
                    == Err::<Seq<ConfigGroupView>, _>(p),
            },
        decreases buckets@.len() - j,
    {
        let ghost out0 = out.deep_view();
        let k: usize = buckets[j].0;
        assert(bv[j as int] == (k as int, buckets@[j as int].1.deep_view()));
        assert(ev[k as int] == configs@[k as int]@);
        match resolve_event_for_config(
            &configs[k],
            event,
            repo_root,
            Some(&buckets[j].1),
            worktree_context,
        ) {
            Err(e) => {
                return Err(e);
            },
            Ok(None) => {},
            Ok(Some(rh)) => {
                let ghost rhv = rh@;
                let cg = ConfigGroup {
                    config_path: configs[k].path.clone(),
                    files: crate::config::clone_string_vec(&buckets[j].1),
                    resolved_hooks: rh,
                };
                out.push(cg);
                proof {
                    let cgv = ConfigGroupView {
                        config_path: ev[k as int].path,
                        files: bv[j as int].1,
                        resolved_hooks: rhv,
                    };
                    assert(out.deep_view() =~~= out0.push(cgv));
                    match spec_resolve_buckets(bv, j + 1, ev, rootv, event@, worktree_context@) {
                        Ok(rest2) => {
                            assert(out0 + (seq![cgv] + rest2) =~= out.deep_view() + rest2);
                        },
                        Err(_) => {},
                    }
                }
            },
        }
        j = j + 1;
    }
    assert(spec_resolve_buckets(bv, buckets@.len() as int, ev, rootv, event@, worktree_context@)
        == Ok::<_, Seq<char>>(Seq::<ConfigGroupView>::empty()));
    assert(out.deep_view() =~~= out.deep_view() + Seq::<ConfigGroupView>::empty());
    Ok(out)
}

/// What the full pipeline yields: with no changed files (or no list at
/// all), the event is resolved from the nearest config above the current
/// directory with no file filtering; otherwise files are grouped by
/// nearest config and each group resolved.
pub open spec fn spec_resolve_hier(
    event: Seq<char>,
    changed: Option<Seq<Seq<char>>>,
    root: Seq<char>,
    current_dir: Seq<char>,
    wt: WorktreeContextView,
    entries: Seq<ConfigEntryView>,
) -> Result<Seq<ConfigGroupView>, Seq<char>> {
    let files = match changed {
        None => Seq::<Seq<char>>::empty(),
        Some(f) => f,
    };
    if files.len() == 0 {
        match spec_nearest_dir(entries, current_dir, root) {
            None => Ok(Seq::empty()),
            Some(ix) => match spec_resolve_event(entries[ix].config, entries[ix].path,
                entries[ix].dir, root, event, None, wt) {
                Err(p) => Err(p),
                Ok(None) => Ok(Seq::empty()),
                Ok(Some(rv)) => Ok(
                    seq![
                        ConfigGroupView {
                            config_path: entries[ix].path,
                            files: Seq::empty(),
                            resolved_hooks: rv,
                        },
                    ],
                ),
            },
        }
    } else {
        spec_group_files(files, root, event, wt, entries)
    }
}

/// Resolve hooks for an event across the whole repository: group the
/// changed files by their nearest configuration and resolve each group;
/// with no files at hand, resolve from the current directory.
pub fn resolve_hooks_hierarchically(
    event: &str,
    changed_files: Option<&Vec<String>>,
    repo_root: &String,
    current_dir: &String,
    worktree_context: &WorktreeContext,
    configs: &Vec<ConfigEntry>,
) -> (r: Result<Vec<ConfigGroup>, HookError>)
    ensures
        match spec_resolve_hier(
            event@,
            opt_files_view(changed_files),
            repo_root@,
            current_dir@,
            worktree_context@,
            configs.deep_view(),
        ) {
            Ok(gs) => r matches Ok(v) && v.deep_view() == gs,
            Err(p) => r matches Err(e) && (e matches HookError::InvalidPattern { pattern }
                && pattern@ == p),
        },
{
    let no_files = match changed_files {
        None => true,
        Some(v) => v.len() == 0,
    };
    if no_files {
        match nearest_entry_from_dir(configs, current_dir, repo_root) {
            None => {
                let out: Vec<ConfigGroup> = Vec::new();
                assert(out.deep_view() =~~= Seq::<ConfigGroupView>::empty());
                Ok(out)
            },
            Some(ix) => {
                assert(configs.deep_view()[ix as int] == configs@[ix as int]@);
                match resolve_event_for_config(&configs[ix], event, repo_root, None,
                    worktree_context) {
                    Err(e) => Err(e),
                    Ok(None) => {
                        let out: Vec<ConfigGroup> = Vec::new();
                        assert(out.deep_view() =~~= Seq::<ConfigGroupView>::empty());
                        Ok(out)
                    },
                    Ok(Some(rh)) => {
                        let ghost rhv = rh@;
                        let cg = ConfigGroup {
                            config_path: configs[ix].path.clone(),
                            files: Vec::new(),
                            resolved_hooks: rh,
                        };
                        let mut out: Vec<ConfigGroup> = Vec::new();
                        out.push(cg);
                        assert(out.deep_view() =~~= seq![
                            ConfigGroupView {
                                config_path: configs.deep_view()[ix as int].path,
                                files: Seq::empty(),
                                resolved_hooks: rhv,
                            },
                        ]);
                        Ok(out)
                    },
                }
            },
        }
    } else {
        match changed_files {
            Some(v) => group_files_by_config(v, repo_root, event, worktree_context, configs),
            None => {
                let out: Vec<ConfigGroup> = Vec::new();
                Ok(out)
            },
        }
    }
}

/// The group a name denotes in this config, if any.
fn lookup_group<'a>(config: &'a HookConfig, name: &str) -> (r: Option<&'a HookGroup>)
    ensures
        match r {
            Some(g) => assoc_group(config@.groups, name@) == Some(g@),
            None => assoc_group(config@.groups, name@) is None,
        },
{
    match &config.groups {
        None => None,
        Some(gs) => {
            let mut i: usize = 0;
            assert(gs.deep_view().subrange(0, gs.deep_view().len() as int) =~~= gs.deep_view());
            while i < gs.len()
                invariant
                    i <= gs@.len(),
                    config@.groups == Some(gs.deep_view()),
                    assoc_group_in(gs.deep_view(), name@) == assoc_group_in(
                        gs.deep_view().subrange(i as int, gs.deep_view().len() as int),
                        name@,
                    ),
                decreases gs@.len() - i,
            {
                let ghost tail = gs.deep_view().subrange(i as int, gs.deep_view().len() as int);
                assert(tail[0] == gs.deep_view()[i as int]);
                assert(gs.deep_view()[i as int].0 == gs@[i as int].0@);
                if crate::util::str_eq(gs[i].0.as_str(), name) {
                    assert(gs.deep_view()[i as int].1 == gs@[i as int].1@);
                    return Some(&gs[i].1);
                }
                assert(tail.drop_first() =~~= gs.deep_view().subrange(
                    i + 1,
                    gs.deep_view().len() as int,
                ));
                i = i + 1;
            }
            assert(gs.deep_view().subrange(i as int, gs.deep_view().len() as int).len() == 0);
            None
        },
    }
}

} // verus!
