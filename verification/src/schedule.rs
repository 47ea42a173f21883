//! Scheduling decisions for a group's resolved hooks.
//!
//! Before anything is spawned, a group's hooks are split into a parallel
//! phase (hooks that do not modify the repository) and a sequential phase
//! (hooks that do), unless the group is sequential, in which case every
//! hook is sequential. Within a phase, `depends_on` is turned into an
//! order: a hook comes after every dependency that names a hook of the
//! same phase, with the incoming order as tie-break. A dependency cycle
//! is an error; dependencies never decide success, only order, so every
//! scheduled hook still runs. Spawning, waiting and killing stay outside
//! the library.

use vstd::prelude::*;
use crate::config::{ExecutionStrategy, HookDefinitionView, ResolvedHook, ResolvedHookView};
use crate::errors::HookError;

verus! {

/// The declared dependencies of a hook.
pub open spec fn deps_of(h: HookDefinitionView) -> Seq<Seq<char>> {
    match h.depends_on {
        None => Seq::empty(),
        Some(d) => d,
    }
}

/// The names of a hook list.
pub open spec fn names_of(items: Seq<(Seq<char>, ResolvedHookView)>) -> Set<Seq<char>> {
    items.map_values(|p: (Seq<char>, ResolvedHookView)| p.0).to_set()
}

/// The parallel phase: the hooks that do not modify the repository, in
/// order; empty when the group is sequential.
pub open spec fn spec_parallel_phase(
    hooks: Seq<(Seq<char>, ResolvedHookView)>,
    strategy: ExecutionStrategy,
) -> Seq<(Seq<char>, ResolvedHookView)> {
    if strategy == ExecutionStrategy::Sequential {
        Seq::empty()
    } else {
        hooks.filter(|p: (Seq<char>, ResolvedHookView)| !p.1.definition.modifies_repository)
    }
}

/// The sequential phase: the hooks that modify the repository, in order;
/// every hook when the group is sequential.
pub open spec fn spec_sequential_phase(
    hooks: Seq<(Seq<char>, ResolvedHookView)>,
    strategy: ExecutionStrategy,
) -> Seq<(Seq<char>, ResolvedHookView)> {
    if strategy == ExecutionStrategy::Sequential {
        hooks
    } else {
        hooks.filter(|p: (Seq<char>, ResolvedHookView)| p.1.definition.modifies_repository)
    }
}

/// Split a group's hooks into the parallel and the sequential phase,
/// keeping the incoming order within each phase.
pub fn partition_phases(hooks: Vec<(String, ResolvedHook)>, strategy: ExecutionStrategy) -> (r: (
    Vec<(String, ResolvedHook)>,
    Vec<(String, ResolvedHook)>,
))
    ensures
        r.0.deep_view() == spec_parallel_phase(hooks.deep_view(), strategy),
        r.1.deep_view() == spec_sequential_phase(hooks.deep_view(), strategy),
{
    let ghost hv = hooks.deep_view();
    let total = hooks.len();
    let mut parallel: Vec<(String, ResolvedHook)> = Vec::new();
    let mut sequential: Vec<(String, ResolvedHook)> = Vec::new();
    let sequential_group = match strategy {
        ExecutionStrategy::Sequential => true,
        ExecutionStrategy::Parallel => false,
    };
    let mut rest = hooks;
    let mut i: usize = 0;
    while rest.len() > 0
        invariant
            total == hv.len(),
            i <= total,
            hv.len() == i + rest@.len(),
            rest.deep_view() =~~= hv.subrange(i as int, hv.len() as int),
            sequential_group == (strategy == ExecutionStrategy::Sequential),
            sequential_group ==> parallel.deep_view() =~~= Seq::<
                (Seq<char>, ResolvedHookView),
            >::empty() && sequential.deep_view() =~~= hv.subrange(0, i as int),
            !sequential_group ==> parallel.deep_view() =~~= hv.subrange(0, i as int).filter(
                |p: (Seq<char>, ResolvedHookView)| !p.1.definition.modifies_repository,
            ) && sequential.deep_view() =~~= hv.subrange(0, i as int).filter(
                |p: (Seq<char>, ResolvedHookView)| p.1.definition.modifies_repository,
            ),
        decreases rest@.len(),
    {
        let ghost restpre = rest@;
        let ghost restdeep = rest.deep_view();
        proof {
            assert(rest.deep_view()[0] == hv[i as int]);
        }
        let item = rest.remove(0);
        let ghost pre = hv.subrange(0, i as int);
        assert(item.deep_view() == hv[i as int]);
        proof {
            assert(rest@ =~= restpre.drop_first());
            assert forall|m: int| 0 <= m < rest@.len() implies rest.deep_view()[m] == restdeep[m
                + 1] by {
                assert(rest@[m] == restpre[m + 1]);
            }
            assert(rest.deep_view() =~~= hv.subrange(i + 1, hv.len() as int));
        }
        let modifies = item.1.definition.modifies_repository;
        if sequential_group {
            sequential.push(item);
        } else if modifies {
            sequential.push(item);
        } else {
            parallel.push(item);
        }
        proof {
            assert(hv.subrange(0, i + 1).drop_last() =~~= pre);
            assert(hv.subrange(0, i + 1) =~~= pre.push(hv[i as int]));
            reveal_with_fuel(Seq::<(Seq<char>, ResolvedHookView)>::filter, 2);
            assert(pre.push(hv[i as int]).filter(
                |p: (Seq<char>, ResolvedHookView)| !p.1.definition.modifies_repository,
            ) =~~= (if !modifies {
                pre.filter(
                    |p: (Seq<char>, ResolvedHookView)| !p.1.definition.modifies_repository,
                ).push(hv[i as int])
            } else {
                pre.filter(|p: (Seq<char>, ResolvedHookView)| !p.1.definition.modifies_repository)
            }));
            assert(pre.push(hv[i as int]).filter(
                |p: (Seq<char>, ResolvedHookView)| p.1.definition.modifies_repository,
            ) =~~= (if modifies {
                pre.filter(
                    |p: (Seq<char>, ResolvedHookView)| p.1.definition.modifies_repository,
                ).push(hv[i as int])
            } else {
                pre.filter(|p: (Seq<char>, ResolvedHookView)| p.1.definition.modifies_repository)
            }));
        }
        i = i + 1;
    }
    assert(hv.subrange(0, hv.len() as int) =~~= hv);
    (parallel, sequential)
}

/// Whether a hook is ready: each of its dependencies that names a hook
/// of this phase has already been placed.
pub open spec fn spec_ready(
    h: HookDefinitionView,
    universe: Set<Seq<char>>,
    placed: Set<Seq<char>>,
) -> bool {
    forall|k: int|
        0 <= k < deps_of(h).len() && universe.contains(deps_of(h)[k]) ==> placed.contains(
            deps_of(h)[k],
        )
}

/// The first pending hook that is ready, from position `i` on.
pub open spec fn spec_first_ready_from(
    items: Seq<(Seq<char>, ResolvedHookView)>,
    universe: Set<Seq<char>>,
    placed: Set<Seq<char>>,
    i: int,
) -> Option<int>
    decreases items.len() - i when 0 <= i <= items.len()
{
    if i >= items.len() {
        None
    } else if spec_ready(items[i].1.definition, universe, placed) {
        Some(i)
    } else {
        spec_first_ready_from(items, universe, placed, i + 1)
    }
}

/// The order a phase runs in: repeatedly take the first pending hook
/// whose dependencies (within the phase) are all placed. With no ready
/// hook left, the remaining dependencies are cyclic, and the first stuck
/// hook is reported.
pub open spec fn spec_schedule(
    items: Seq<(Seq<char>, ResolvedHookView)>,
    universe: Set<Seq<char>>,
    placed: Set<Seq<char>>,
    acc: Seq<(Seq<char>, ResolvedHookView)>,
) -> Result<Seq<(Seq<char>, ResolvedHookView)>, Seq<char>>
    decreases items.len() via spec_schedule_decreases
{
    if items.len() == 0 {
        Ok(acc)
    } else {
        match spec_first_ready_from(items, universe, placed, 0) {
            None => Err(items[0].0),
            Some(i) => spec_schedule(
                items.remove(i),
                universe,
                placed.insert(items[i].0),
                acc.push(items[i]),
            ),
        }
    }
}

#[via_fn]
proof fn spec_schedule_decreases(
    items: Seq<(Seq<char>, ResolvedHookView)>,
    universe: Set<Seq<char>>,
    placed: Set<Seq<char>>,
    acc: Seq<(Seq<char>, ResolvedHookView)>,
) {
    if items.len() > 0 {
        lemma_first_ready_bounds(items, universe, placed, 0);
    }
}

proof fn lemma_first_ready_bounds(
    items: Seq<(Seq<char>, ResolvedHookView)>,
    universe: Set<Seq<char>>,
    placed: Set<Seq<char>>,
    i: int,
)
    requires
        0 <= i <= items.len(),
    ensures
        match spec_first_ready_from(items, universe, placed, i) {
            Some(j) => i <= j < items.len() && spec_ready(items[j].1.definition, universe, placed)
                && (forall|k: int|
                i <= k < j ==> !spec_ready(items[k].1.definition, universe, placed)),
            None => forall|k: int|
                i <= k < items.len() ==> !spec_ready(items[k].1.definition, universe, placed),
        },
    decreases items.len() - i,
{
    if i < items.len() && !spec_ready(items[i].1.definition, universe, placed) {
        lemma_first_ready_bounds(items, universe, placed, i + 1);
    }
}

proof fn lemma_first_ready_at(
    items: Seq<(Seq<char>, ResolvedHookView)>,
    universe: Set<Seq<char>>,
    placed: Set<Seq<char>>,
    i: int,
    j: int,
)
    requires
        0 <= i <= j < items.len(),
        spec_ready(items[j].1.definition, universe, placed),
        forall|k: int| i <= k < j ==> !spec_ready(items[k].1.definition, universe, placed),
    ensures
        spec_first_ready_from(items, universe, placed, i) == Some(j),
    decreases j - i,
{
    if i < j {
        lemma_first_ready_at(items, universe, placed, i + 1, j);
    }
}

fn contains_name(v: &Vec<String>, name: &String) -> (r: bool)
    ensures
        r == crate::hierarchical::vstr_set(v@).contains(name@),
{
    let mut i: usize = 0;
    while i < v.len()
        invariant
            i <= v@.len(),
            forall|j: int| 0 <= j < i ==> v@[j]@ != name@,
        decreases v@.len() - i,
    {
        if v[i].eq(name) {
            return true;
        }
        i = i + 1;
    }
    false
}

fn ready_exec(
    item: &ResolvedHook,
    universe: &Vec<String>,
    placed: &Vec<String>,
) -> (r: bool)
    ensures
        r == spec_ready(
            item@.definition,
            crate::hierarchical::vstr_set(universe@),
            crate::hierarchical::vstr_set(placed@),
        ),
{
    let ghost uset = crate::hierarchical::vstr_set(universe@);
    let ghost pset = crate::hierarchical::vstr_set(placed@);
    match &item.definition.depends_on {
        None => {
            assert(deps_of(item@.definition) =~~= Seq::<Seq<char>>::empty());
            true
        },
        Some(deps) => {
            assert(deps_of(item@.definition) =~~= deps.deep_view());
            let mut k: usize = 0;
            while k < deps.len()
                invariant
                    k <= deps@.len(),
                    deps_of(item@.definition) == deps.deep_view(),
                    uset == crate::hierarchical::vstr_set(universe@),
                    pset == crate::hierarchical::vstr_set(placed@),
                    forall|m: int|
                        0 <= m < k && uset.contains(deps.deep_view()[m]) ==> pset.contains(
                            deps.deep_view()[m],
                        ),
                decreases deps@.len() - k,
            {
                assert(deps.deep_view()[k as int] == deps@[k as int]@);
                if contains_name(universe, &deps[k]) && !contains_name(placed, &deps[k]) {
                    return false;
                }
                k = k + 1;
            }
            true
        },
    }
}

fn first_ready_index(
    pending: &Vec<(String, ResolvedHook)>,
    universe: &Vec<String>,
    placed: &Vec<String>,
) -> (r: Option<usize>)
    ensures
        (match r {
            Some(j) => Some(j as int),
            None => None::<int>,
        }) == spec_first_ready_from(
            pending.deep_view(),
            crate::hierarchical::vstr_set(universe@),
            crate::hierarchical::vstr_set(placed@),
            0,
        ),
        r matches Some(j) ==> j < pending@.len(),
{
    let ghost pv = pending.deep_view();
    let ghost uset = crate::hierarchical::vstr_set(universe@);
    let ghost pset = crate::hierarchical::vstr_set(placed@);
    let mut j: usize = 0;
    while j < pending.len()
        invariant
            j <= pending@.len(),
            pv == pending.deep_view(),
            uset == crate::hierarchical::vstr_set(universe@),
            pset == crate::hierarchical::vstr_set(placed@),
            spec_first_ready_from(pv, uset, pset, 0) == spec_first_ready_from(pv, uset, pset,
                j as int),
        decreases pending@.len() - j,
    {
        assert(pv[j as int].1 == pending@[j as int].1@);
        if ready_exec(&pending[j].1, universe, placed) {
            return Some(j);
        }
        j = j + 1;
    }
    None
}

/// Order one phase's hooks so that dependencies within the phase come
/// first, with the incoming order as tie-break; a dependency cycle is an
/// error naming the first stuck hook.
#[verifier::loop_isolation(false)]
pub fn schedule_phase(hooks: Vec<(String, ResolvedHook)>) -> (r: Result<
    Vec<(String, ResolvedHook)>,
    HookError,
>)
    ensures
        match spec_schedule(hooks.deep_view(), names_of(hooks.deep_view()), Set::empty(),
            Seq::empty()) {
            Ok(order) => r matches Ok(v) && v.deep_view() == order,
            Err(n) => r matches Err(e) && (e matches HookError::DependencyCycle { hook } && hook@
                == n),
        },
{
    let ghost uset = names_of(hooks.deep_view());
    let mut universe: Vec<String> = Vec::new();
    let mut i: usize = 0;
    while i < hooks.len()
        invariant
            i <= hooks@.len(),
            universe@.len() == i,
            forall|j: int| 0 <= j < i ==> universe@[j]@ == hooks.deep_view()[j].0,
        decreases hooks@.len() - i,
    {
        assert(hooks.deep_view()[i as int].0 == hooks@[i as int].0@);
        universe.push(hooks[i].0.clone());
        i = i + 1;
    }
    proof {
        let names = hooks.deep_view().map_values(|p: (Seq<char>, ResolvedHookView)| p.0);
        assert forall|x: Seq<char>|
            crate::hierarchical::vstr_set(universe@).contains(x) == uset.contains(x) by {
            if crate::hierarchical::vstr_set(universe@).contains(x) {
                let j = choose|j: int| 0 <= j < universe@.len() && universe@[j]@ == x;
                assert(names[j] == x);
                assert(names.contains(x));
            }
            if uset.contains(x) {
                let j = choose|j: int| 0 <= j < names.len() && names[j] == x;
                assert(universe@[j]@ == x);
            }
        }
        assert(crate::hierarchical::vstr_set(universe@) =~= uset);
    }
    let mut pending = hooks;
    let mut placed: Vec<String> = Vec::new();
    let mut out: Vec<(String, ResolvedHook)> = Vec::new();
    assert(crate::hierarchical::vstr_set(placed@) =~= Set::<Seq<char>>::empty());
    assert(out.deep_view() =~~= Seq::<(Seq<char>, ResolvedHookView)>::empty());
    let ghost target = spec_schedule(pending.deep_view(), uset, Set::empty(), Seq::empty());
    while pending.len() > 0
        invariant
            uset == crate::hierarchical::vstr_set(universe@),
            spec_schedule(pending.deep_view(), uset, crate::hierarchical::vstr_set(placed@),
                out.deep_view()) == target,
        decreases pending@.len(),
    {
        let ghost p0 = pending.deep_view();
        let ghost placed0 = crate::hierarchical::vstr_set(placed@);
        let ghost out0 = out.deep_view();
        match first_ready_index(&pending, &universe, &placed) {
            None => {
                assert(p0[0].0 == pending@[0].0@);
                let stuck = pending[0].0.clone();
                return Err(HookError::DependencyCycle { hook: stuck });
            },
            Some(f) => {
                let ghost pendpre = pending@;
                let item = pending.remove(f);
                assert(pending.deep_view() =~~= p0.remove(f as int));
                let name_copy = item.0.clone();
                let ghost placed_pre = placed@;
                let ghost name_copy_g = name_copy;
                placed.push(name_copy);
                proof {
                    assert(placed@ =~= placed_pre.push(name_copy_g));
                    crate::hierarchical::lemma_vstr_set_push(placed_pre, name_copy_g);
                    assert(crate::hierarchical::vstr_set(placed@) =~= placed0.insert(
                        p0[f as int].0,
                    ));
                }
                out.push(item);
                proof {
                    assert(out.deep_view() =~~= out0.push(p0[f as int]));
                    assert(spec_schedule(p0, uset, placed0, out0) == spec_schedule(
                        p0.remove(f as int),
                        uset,
                        placed0.insert(p0[f as int].0),
                        out0.push(p0[f as int]),
                    ));
                }
            },
        }
    }
    assert(spec_schedule(pending.deep_view(), uset, crate::hierarchical::vstr_set(placed@),
        out.deep_view()) == Ok::<_, Seq<char>>(out.deep_view()));
    Ok(out)
}

/// In a scheduled phase, order respects `depends_on`: every dependency
/// of a hook that names a hook of the phase appears at an earlier
/// position.
pub proof fn lemma_schedule_respects_deps(
    items: Seq<(Seq<char>, ResolvedHookView)>,
    universe: Set<Seq<char>>,
    placed: Set<Seq<char>>,
    acc: Seq<(Seq<char>, ResolvedHookView)>,
)
    requires
        forall|j: int, k: int|
            0 <= j < acc.len() && 0 <= k < deps_of(acc[j].1.definition).len() && universe.contains(
                deps_of(acc[j].1.definition)[k],
            ) ==> exists|i: int| 0 <= i < j && acc[i].0 == deps_of(acc[j].1.definition)[k],
        forall|x: Seq<char>|
            placed.contains(x) ==> exists|j: int| 0 <= j < acc.len() && acc[j].0 == x,
    ensures
        match spec_schedule(items, universe, placed, acc) {
            Ok(order) => forall|j: int, k: int|
                0 <= j < order.len() && 0 <= k < deps_of(order[j].1.definition).len()
                    && universe.contains(deps_of(order[j].1.definition)[k]) ==> exists|i: int|
                    0 <= i < j && order[i].0 == deps_of(order[j].1.definition)[k],
            Err(_) => true,
        },
    decreases items.len(),
{
    if items.len() == 0 {
    } else {
        lemma_first_ready_bounds(items, universe, placed, 0);
        match spec_first_ready_from(items, universe, placed, 0) {
            None => {},
            Some(i) => {
                let picked = items[i];
                let acc2 = acc.push(picked);
                let placed2 = placed.insert(picked.0);
                assert forall|j: int, k: int|
                    0 <= j < acc2.len() && 0 <= k < deps_of(acc2[j].1.definition).len()
                        && universe.contains(deps_of(acc2[j].1.definition)[k]) implies exists|
                    m: int,
                |
                    0 <= m < j && acc2[m].0 == deps_of(acc2[j].1.definition)[k] by {
                    let d = deps_of(acc2[j].1.definition)[k];
                    if j < acc.len() {
                        assert(exists|m: int| 0 <= m < j && acc[m].0 == d);
                        let m = choose|m: int| 0 <= m < j && acc[m].0 == d;
                        assert(acc2[m].0 == d);
                    } else {
                        assert(acc2[j] == picked);
                        assert(spec_ready(picked.1.definition, universe, placed));
                        assert(placed.contains(d));
                        let m = choose|m: int| 0 <= m < acc.len() && acc[m].0 == d;
                        assert(acc2[m].0 == d);
                    }
                }
                assert forall|x: Seq<char>| placed2.contains(x) implies exists|j: int|
                    0 <= j < acc2.len() && acc2[j].0 == x by {
                    if x == picked.0 {
                        assert(acc2[acc.len() as int].0 == x);
                    } else {
                        let j = choose|j: int| 0 <= j < acc.len() && acc[j].0 == x;
                        assert(acc2[j].0 == x);
                    }
                }
                lemma_schedule_respects_deps(items.remove(i), universe, placed2, acc2);
            },
        }
    }
}

} // verus!
