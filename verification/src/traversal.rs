//! What holds of a whole traversal: its start on an empty table, its
//! failures before any work, and its outcome on a graph without cycles.

use vstd::prelude::*;
use vstd::string::*;
use crate::dependency::DependencyInfoView;
use crate::fetch::{joined_path, selected_plan};
use crate::manifest::{DependencyView, DetailedDependencyView, ManifestView};
use crate::name_map::{distinct_names, has_name, place_of};
use crate::resolver::{
    advance, completed, directory, entry_action, failure, initial, next_action, next_state,
    record, seeded, ActionView, ErrorKind, EventView, InFlightView, PendingView, ResolutionView,
    ResolveErrorView, StageView, Step, MAX_DEPTH,
};

verus! {

/// A manifest without dependencies resolves to nothing: the resolution is
/// finished where it starts, with no dependency resolved and no work asked
/// for.
pub proof fn lemma_empty_table_resolves_to_nothing(cache_dir: Seq<char>, manifest: ManifestView)
    requires
        manifest.dependencies.len() == 0,
    ensures
        initial(cache_dir, manifest).stage is Finished,
        initial(cache_dir, manifest).resolved.len() == 0,
        initial(cache_dir, manifest).queue.len() == 0,
        entry_action(initial(cache_dir, manifest).stage) == ActionView::Finish,
{
}

/// A worklist entry deeper than the bound fails the resolution with
/// `DepthExceeded`, whatever else the worklist and the resolved set hold.
pub proof fn lemma_entry_beyond_bound_fails(
    cache_dir: Seq<char>,
    queue: Seq<PendingView>,
    resolved: Seq<(Seq<char>, DependencyInfoView)>,
)
    requires
        queue.len() > 0,
        queue[0].depth > MAX_DEPTH,
    ensures
        advance(cache_dir, queue, resolved).1 == failure(ErrorKind::DepthExceeded, queue[0].name),
{
}

/// A declaration that names neither a path, nor a repository, nor a
/// version selects no source.
pub proof fn lemma_bare_table_selects_nothing(t: DetailedDependencyView)
    requires
        t.version is None,
        t.git is None,
        t.path is None,
    ensures
        selected_plan(DependencyView::Detailed(t)) is None,
{
}

/// A declaration that selects no source fails the resolution with
/// `SpecError` when its turn comes, and no work is asked for it: the
/// action is the failure itself.
pub proof fn lemma_missing_source_fails_before_any_work(
    cache_dir: Seq<char>,
    queue: Seq<PendingView>,
    resolved: Seq<(Seq<char>, DependencyInfoView)>,
)
    requires
        queue.len() > 0,
        queue[0].depth <= MAX_DEPTH,
        !has_name(resolved, queue[0].name),
        selected_plan(queue[0].dependency) is None,
    ensures
        advance(cache_dir, queue, resolved).1 == failure(ErrorKind::SpecError, queue[0].name),
        entry_action(advance(cache_dir, queue, resolved).1) == ActionView::Fail(
            ResolveErrorView { kind: ErrorKind::SpecError, dependency: queue[0].name },
        ),
{
}

/// A manifest whose first dependency selects no source fails with
/// `SpecError` at the start, before any work is asked for.
pub proof fn lemma_first_declaration_without_source(cache_dir: Seq<char>, manifest: ManifestView)
    requires
        manifest.dependencies.len() > 0,
        selected_plan(manifest.dependencies[0].1) is None,
    ensures
        initial(cache_dir, manifest).stage == failure(
            ErrorKind::SpecError,
            manifest.dependencies[0].0,
        ),
{
    let queue = seeded(manifest.dependencies, 0);
    assert(queue[0].name == manifest.dependencies[0].0);
    assert(queue[0].dependency == manifest.dependencies[0].1);
    let empty = Seq::<(Seq<char>, DependencyInfoView)>::empty();
    assert(!has_name(empty, queue[0].name));
}

/// A dependency whose directory is found in the cache is loaded from
/// there: no download, unpacking or clone is asked for.
pub proof fn lemma_cached_dependency_is_loaded(s: ResolutionView, f: InFlightView)
    requires
        s.stage == StageView::Working(f),
        f.step == Step::Probe,
    ensures
        next_action(s, EventView::Exists(true)) == (ActionView::Load {
            path: joined_path(f.dir, "Quantum.toml"@),
        }),
        next_state(s, EventView::Exists(true)).stage == StageView::Working(
            InFlightView { step: Step::Load, ..f },
        ),
        next_state(s, EventView::Exists(true)).queue == s.queue,
        next_state(s, EventView::Exists(true)).resolved == s.resolved,
{
}

/// Two fetches of the same name by the same plan into the same cache use
/// the same directory, and the same manifest gives them the same record.
pub proof fn lemma_same_declaration_same_record(
    cache_dir: Seq<char>,
    f1: InFlightView,
    f2: InFlightView,
    m: ManifestView,
)
    requires
        f1.name == f2.name,
        f1.plan == f2.plan,
        f1.dir == directory(cache_dir, f1.name, f1.plan),
        f2.dir == directory(cache_dir, f2.name, f2.plan),
    ensures
        f1.dir == f2.dir,
        record(f1, m) == record(f2, m),
{
}

/// When the manifest of the dependency that is being fetched is loaded and
/// breaks no rule, the dependency is resolved: the state is the one that
/// [`completed`] describes.
pub proof fn lemma_loaded_manifest_completes(s: ResolutionView, f: InFlightView, m: ManifestView)
    requires
        s.stage == StageView::Working(f),
        f.step == Step::Load,
        crate::manifest::validation(m) is Ok,
    ensures
        next_state(s, EventView::Loaded(m)) == completed(s, f, m),
        next_action(s, EventView::Loaded(m)) == entry_action(completed(s, f, m).stage),
{
}

/// The traversal in a world in which every fetch succeeds and the
/// dependency called `name` has the manifest `pkg(name)`: the states that
/// follow one another, one fetched dependency at a time, for at most
/// `fuel` dependencies.
pub open spec fn run(
    s: ResolutionView,
    pkg: spec_fn(Seq<char>) -> ManifestView,
    fuel: nat,
) -> ResolutionView
    decreases fuel,
{
    if fuel == 0 {
        s
    } else {
        match s.stage {
            StageView::Working(f) => run(completed(s, f, pkg(f.name)), pkg, (fuel - 1) as nat),
            _ => s,
        }
    }
}

/// Whether a worklist holds an entry called `name`.
pub open spec fn queued(queue: Seq<PendingView>, name: Seq<char>) -> bool {
    exists|i: int| 0 <= i < queue.len() && (#[trigger] queue[i]).name == name
}

/// Whether `name` is resolved, waiting on the worklist, or being fetched.
pub open spec fn covered(s: ResolutionView, name: Seq<char>) -> bool {
    has_name(s.resolved, name) || queued(s.queue, name) || match s.stage {
        StageView::Working(f) => f.name == name,
        _ => false,
    }
}

/// Whether `names` holds the name of every declaration of `table`.
pub open spec fn holds_names(names: Set<Seq<char>>, table: Seq<(Seq<char>, DependencyView)>) -> bool {
    forall|i: int| 0 <= i < table.len() ==> names.contains((#[trigger] table[i]).0)
}

/// Whether `names` holds the direct dependencies of the manifest and,
/// with each name, the names that its package depends on.
pub open spec fn closed_from(
    names: Set<Seq<char>>,
    roots: Seq<(Seq<char>, DependencyView)>,
    pkg: spec_fn(Seq<char>) -> ManifestView,
) -> bool {
    &&& holds_names(names, roots)
    &&& forall|n: Seq<char>| #[trigger] names.contains(n) ==> holds_names(names, pkg(n).dependencies)
}

/// Whether every declaration of `table` selects a source.
pub open spec fn all_selectable(table: Seq<(Seq<char>, DependencyView)>) -> bool {
    forall|i: int| 0 <= i < table.len() ==> selected_plan((#[trigger] table[i]).1) is Some
}

/// Whether every name declared in `table` has a height below `limit`.
pub open spec fn all_below(
    table: Seq<(Seq<char>, DependencyView)>,
    height: spec_fn(Seq<char>) -> nat,
    limit: int,
) -> bool {
    forall|i: int| 0 <= i < table.len() ==> height((#[trigger] table[i]).0) < limit
}

/// A dependency graph without cycles, no deeper than the bound.
///
/// `reachable` is the set of names that can be reached from the direct
/// dependencies `roots`: it is finite, closed, and the least such set.
/// Every declaration met selects a source. `height` falls along every
/// edge, which rules out cycles, and no direct dependency is higher than
/// [`MAX_DEPTH`], which bounds the depth.
pub open spec fn shallow_acyclic_graph(
    roots: Seq<(Seq<char>, DependencyView)>,
    pkg: spec_fn(Seq<char>) -> ManifestView,
    height: spec_fn(Seq<char>) -> nat,
    reachable: Set<Seq<char>>,
) -> bool {
    &&& reachable.finite()
    &&& closed_from(reachable, roots, pkg)
    &&& forall|names: Set<Seq<char>>| #[trigger]
        closed_from(names, roots, pkg) ==> reachable.subset_of(names)
    &&& all_selectable(roots)
    &&& all_below(roots, height, MAX_DEPTH + 1)
    &&& forall|n: Seq<char>| #[trigger]
        reachable.contains(n) ==> all_selectable(pkg(n).dependencies)
    &&& forall|n: Seq<char>| #[trigger]
        reachable.contains(n) ==> all_below(pkg(n).dependencies, height, height(n) as int)
}

/// Whether a worklist entry is one of the graph: its name can be reached,
/// its declaration selects a source, and its depth leaves room for what
/// lies below it.
pub open spec fn entry_fits(
    p: PendingView,
    height: spec_fn(Seq<char>) -> nat,
    reachable: Set<Seq<char>>,
) -> bool {
    &&& reachable.contains(p.name)
    &&& selected_plan(p.dependency) is Some
    &&& p.depth + height(p.name) <= MAX_DEPTH
}

/// Whether every entry of a worklist is one of the graph.
pub open spec fn queue_fits(
    queue: Seq<PendingView>,
    height: spec_fn(Seq<char>) -> nat,
    reachable: Set<Seq<char>>,
) -> bool {
    forall|i: int| 0 <= i < queue.len() ==> entry_fits(#[trigger] queue[i], height, reachable)
}

/// Whether every resolved record is one of the graph: its name can be
/// reached and its manifest is that of the package of this name.
pub open spec fn resolved_fits(
    resolved: Seq<(Seq<char>, DependencyInfoView)>,
    pkg: spec_fn(Seq<char>) -> ManifestView,
    reachable: Set<Seq<char>>,
) -> bool {
    forall|i: int|
        0 <= i < resolved.len() ==> reachable.contains((#[trigger] resolved[i]).0)
            && resolved[i].1.manifest == pkg(resolved[i].0)
}

/// Whether every name declared in `table` is covered in `s`.
pub open spec fn table_covered(s: ResolutionView, table: Seq<(Seq<char>, DependencyView)>) -> bool {
    forall|i: int| 0 <= i < table.len() ==> covered(s, (#[trigger] table[i]).0)
}

/// What holds of every state of a traversal of a shallow graph without
/// cycles: it has not failed, all it holds belongs to the graph, and no
/// name is lost: the direct dependencies and the dependencies of every
/// resolved package are resolved, waiting, or being fetched.
pub open spec fn on_course(
    s: ResolutionView,
    roots: Seq<(Seq<char>, DependencyView)>,
    pkg: spec_fn(Seq<char>) -> ManifestView,
    height: spec_fn(Seq<char>) -> nat,
    reachable: Set<Seq<char>>,
) -> bool {
    &&& distinct_names(s.resolved)
    &&& resolved_fits(s.resolved, pkg, reachable)
    &&& queue_fits(s.queue, height, reachable)
    &&& match s.stage {
        StageView::Working(f) => {
            &&& reachable.contains(f.name)
            &&& !has_name(s.resolved, f.name)
            &&& f.depth + height(f.name) <= MAX_DEPTH
        },
        StageView::Finished => s.queue.len() == 0,
        StageView::Failed(_) => false,
    }
    &&& table_covered(s, roots)
    &&& forall|i: int|
        0 <= i < s.resolved.len() ==> table_covered(s, pkg((#[trigger] s.resolved[i]).0).dependencies)
}

/// Serving a worklist of the graph never fails. What is left of the
/// worklist still belongs to the graph, and every name that was resolved
/// or waiting before is resolved, waiting or being fetched after.
pub proof fn lemma_advance_stays_on_course(
    cache_dir: Seq<char>,
    queue: Seq<PendingView>,
    resolved: Seq<(Seq<char>, DependencyInfoView)>,
    height: spec_fn(Seq<char>) -> nat,
    reachable: Set<Seq<char>>,
)
    requires
        queue_fits(queue, height, reachable),
    ensures
        ({
            let (rest, stage) = advance(cache_dir, queue, resolved);
            let after = ResolutionView { cache_dir, queue: rest, resolved, stage };
            &&& queue_fits(rest, height, reachable)
            &&& match stage {
                StageView::Working(f) => {
                    &&& reachable.contains(f.name)
                    &&& !has_name(resolved, f.name)
                    &&& f.depth + height(f.name) <= MAX_DEPTH
                },
                StageView::Finished => rest.len() == 0,
                StageView::Failed(_) => false,
            }
            &&& forall|n: Seq<char>|
                has_name(resolved, n) || #[trigger] queued(queue, n) ==> covered(after, n)
        }),
    decreases queue.len(),
{
    let (rest, stage) = advance(cache_dir, queue, resolved);
    let after = ResolutionView { cache_dir, queue: rest, resolved, stage };
    if queue.len() == 0 {
        assert forall|n: Seq<char>|
            has_name(resolved, n) || #[trigger] queued(queue, n) implies covered(after, n) by {}
    } else {
        let head = queue[0];
        let tail = queue.drop_first();
        assert(entry_fits(head, height, reachable));
        assert forall|i: int| 0 <= i < tail.len() implies entry_fits(
            #[trigger] tail[i],
            height,
            reachable,
        ) by {
            assert(tail[i] == queue[i + 1]);
        }
        if has_name(resolved, head.name) {
            lemma_advance_stays_on_course(cache_dir, tail, resolved, height, reachable);
            let mid = ResolutionView { cache_dir, queue: tail, resolved, stage };
            assert forall|n: Seq<char>|
                has_name(resolved, n) || #[trigger] queued(queue, n) implies covered(after, n) by {
                if !has_name(resolved, n) {
                    let i = choose|i: int| 0 <= i < queue.len() && (#[trigger] queue[i]).name == n;
                    if i == 0 {
                        assert(has_name(resolved, n));
                    } else {
                        assert(tail[i - 1].name == n);
                        assert(queued(tail, n));
                    }
                }
            }
        } else {
            assert(rest == tail);
            assert forall|n: Seq<char>|
                has_name(resolved, n) || #[trigger] queued(queue, n) implies covered(after, n) by {
                if !has_name(resolved, n) {
                    let i = choose|i: int| 0 <= i < queue.len() && (#[trigger] queue[i]).name == n;
                    if i != 0 {
                        assert(tail[i - 1].name == n);
                        assert(queued(tail, n));
                    }
                }
            }
        }
    }
}

/// The traversal of a shallow graph without cycles starts on course.
pub proof fn lemma_initial_on_course(
    cache_dir: Seq<char>,
    manifest: ManifestView,
    pkg: spec_fn(Seq<char>) -> ManifestView,
    height: spec_fn(Seq<char>) -> nat,
    reachable: Set<Seq<char>>,
)
    requires
        shallow_acyclic_graph(manifest.dependencies, pkg, height, reachable),
    ensures
        on_course(initial(cache_dir, manifest), manifest.dependencies, pkg, height, reachable),
{
    let roots = manifest.dependencies;
    let queue = seeded(roots, 0);
    let empty = Seq::<(Seq<char>, DependencyInfoView)>::empty();
    assert forall|i: int| 0 <= i < queue.len() implies entry_fits(
        #[trigger] queue[i],
        height,
        reachable,
    ) by {
        assert(queue[i].name == roots[i].0);
        assert(queue[i].dependency == roots[i].1);
    }
    lemma_advance_stays_on_course(cache_dir, queue, empty, height, reachable);
    let s = initial(cache_dir, manifest);
    assert forall|i: int| 0 <= i < roots.len() implies covered(s, (#[trigger] roots[i]).0) by {
        assert(queue[i].name == roots[i].0);
        assert(queued(queue, roots[i].0));
    }
}

/// A traversal on course stays on course when the dependency that is
/// being fetched is loaded, and has one more dependency resolved.
pub proof fn lemma_completed_on_course(
    s: ResolutionView,
    f: InFlightView,
    roots: Seq<(Seq<char>, DependencyView)>,
    pkg: spec_fn(Seq<char>) -> ManifestView,
    height: spec_fn(Seq<char>) -> nat,
    reachable: Set<Seq<char>>,
)
    requires
        shallow_acyclic_graph(roots, pkg, height, reachable),
        on_course(s, roots, pkg, height, reachable),
        s.stage == StageView::Working(f),
    ensures
        on_course(completed(s, f, pkg(f.name)), roots, pkg, height, reachable),
        completed(s, f, pkg(f.name)).resolved.len() == s.resolved.len() + 1,
{
    let m = pkg(f.name);
    let resolved = s.resolved.push((f.name, record(f, m)));
    let children = seeded(m.dependencies, (f.depth + 1) as usize);
    let grown = s.queue + children;
    let after = completed(s, f, m);
    assert(all_selectable(m.dependencies));
    assert(all_below(m.dependencies, height, height(f.name) as int));
    assert(holds_names(reachable, m.dependencies));
    assert forall|i: int| 0 <= i < grown.len() implies entry_fits(
        #[trigger] grown[i],
        height,
        reachable,
    ) by {
        if i < s.queue.len() {
            assert(grown[i] == s.queue[i]);
        } else {
            let j = i - s.queue.len();
            assert(grown[i] == children[j]);
            assert(children[j].name == m.dependencies[j].0);
            assert(children[j].dependency == m.dependencies[j].1);
        }
    }
    lemma_advance_stays_on_course(s.cache_dir, grown, resolved, height, reachable);
    assert(distinct_names(resolved)) by {
        assert forall|i: int, j: int| 0 <= i < j < resolved.len() implies resolved[i].0
            != resolved[j].0 by {
            if j == s.resolved.len() {
                assert(s.resolved[i].0 == resolved[i].0);
            } else {
                assert(s.resolved[i].0 != s.resolved[j].0);
            }
        }
    }
    assert forall|i: int| 0 <= i < resolved.len() implies reachable.contains(
        (#[trigger] resolved[i]).0,
    ) && resolved[i].1.manifest == pkg(resolved[i].0) by {
        if i < s.resolved.len() {
            assert(resolved[i] == s.resolved[i]);
        }
    }
    // every name covered before is resolved or waiting once the fetched
    // dependency is recorded, and so it is covered after the worklist is
    // served
    assert forall|n: Seq<char>| covered(s, n) implies has_name(resolved, n) || queued(grown, n) by {
        if has_name(s.resolved, n) {
            let i = place_of(s.resolved, n);
            assert(resolved[i].0 == n);
        } else if queued(s.queue, n) {
            let i = choose|i: int| 0 <= i < s.queue.len() && (#[trigger] s.queue[i]).name == n;
            assert(grown[i].name == n);
        } else {
            assert(resolved[s.resolved.len() as int].0 == n);
        }
    }
    assert forall|i: int| 0 <= i < roots.len() implies covered(after, (#[trigger] roots[i]).0) by {
        let n = roots[i].0;
        assert(covered(s, n));
        assert(has_name(resolved, n) || queued(grown, n));
    }
    assert forall|i: int| 0 <= i < after.resolved.len() implies table_covered(
        after,
        pkg((#[trigger] after.resolved[i]).0).dependencies,
    ) by {
        let table = pkg(after.resolved[i].0).dependencies;
        assert forall|j: int| 0 <= j < table.len() implies covered(after, (#[trigger] table[j]).0) by {
            let n = table[j].0;
            if i < s.resolved.len() {
                assert(after.resolved[i] == s.resolved[i]);
                assert(table_covered(s, pkg(s.resolved[i].0).dependencies));
                assert(covered(s, n));
                assert(has_name(resolved, n) || queued(grown, n));
            } else {
                assert(children[j].name == n);
                assert(grown[s.queue.len() + j] == children[j]);
                assert(queued(grown, n));
            }
        }
    }
}

/// The names of resolved records.
pub open spec fn resolved_names(resolved: Seq<(Seq<char>, DependencyInfoView)>) -> Seq<Seq<char>> {
    resolved.map_values(|e: (Seq<char>, DependencyInfoView)| e.0)
}

/// Distinct resolved names are as many as the set they make up.
pub proof fn lemma_count_resolved(resolved: Seq<(Seq<char>, DependencyInfoView)>)
    requires
        distinct_names(resolved),
    ensures
        resolved_names(resolved).to_set().len() == resolved.len(),
        resolved_names(resolved).to_set().finite(),
        forall|n: Seq<char>|
            #[trigger] resolved_names(resolved).to_set().contains(n) <==> has_name(resolved, n),
{
    let names = resolved_names(resolved);
    assert(names.no_duplicates()) by {
        assert forall|i: int, j: int| 0 <= i < names.len() && 0 <= j < names.len() && i
            != j implies names[i] != names[j] by {
            if i < j {
                assert(resolved[i].0 != resolved[j].0);
            } else {
                assert(resolved[j].0 != resolved[i].0);
            }
        }
    }
    names.unique_seq_to_set();
    assert forall|n: Seq<char>| #[trigger] names.to_set().contains(n) <==> has_name(resolved, n) by {
        if names.to_set().contains(n) {
            assert(names.contains(n));
            let i = choose|i: int| 0 <= i < names.len() && names[i] == n;
            assert(resolved[i].0 == n);
        }
        if has_name(resolved, n) {
            let i = place_of(resolved, n);
            assert(names[i] == n);
            assert(names.contains(n));
        }
    }
}

/// On a shallow graph without cycles the traversal finishes, at the
/// latest after as many fetches as names can be reached, and then exactly
/// the reachable names are resolved, each once.
pub proof fn lemma_run_finishes(
    s: ResolutionView,
    roots: Seq<(Seq<char>, DependencyView)>,
    pkg: spec_fn(Seq<char>) -> ManifestView,
    height: spec_fn(Seq<char>) -> nat,
    reachable: Set<Seq<char>>,
    fuel: nat,
)
    requires
        shallow_acyclic_graph(roots, pkg, height, reachable),
        on_course(s, roots, pkg, height, reachable),
        s.resolved.len() + fuel >= reachable.len(),
    ensures
        run(s, pkg, fuel).stage is Finished,
        run(s, pkg, fuel).resolved.len() == reachable.len(),
        forall|n: Seq<char>|
            #[trigger] has_name(run(s, pkg, fuel).resolved, n) <==> reachable.contains(n),
    decreases fuel,
{
    lemma_count_resolved(s.resolved);
    let names = resolved_names(s.resolved).to_set();
    assert(names.subset_of(reachable)) by {
        assert forall|n: Seq<char>| names.contains(n) implies reachable.contains(n) by {
            let i = place_of(s.resolved, n);
            assert(reachable.contains(s.resolved[i].0));
        }
    }
    match s.stage {
        StageView::Working(f) => {
            let more = names.insert(f.name);
            assert(more.subset_of(reachable));
            vstd::set_lib::lemma_len_subset(more, reachable);
            assert(more.len() == names.len() + 1);
            assert(fuel > 0);
            lemma_completed_on_course(s, f, roots, pkg, height, reachable);
            lemma_run_finishes(
                completed(s, f, pkg(f.name)),
                roots,
                pkg,
                height,
                reachable,
                (fuel - 1) as nat,
            );
        },
        StageView::Finished => {
            assert(run(s, pkg, fuel) == s);
            assert(closed_from(names, roots, pkg)) by {
                assert forall|i: int| 0 <= i < roots.len() implies names.contains(
                    (#[trigger] roots[i]).0,
                ) by {
                    assert(covered(s, roots[i].0));
                }
                assert forall|n: Seq<char>| #[trigger] names.contains(n) implies holds_names(
                    names,
                    pkg(n).dependencies,
                ) by {
                    let i = place_of(s.resolved, n);
                    assert(table_covered(s, pkg(s.resolved[i].0).dependencies));
                    let table = pkg(n).dependencies;
                    assert forall|j: int| 0 <= j < table.len() implies names.contains(
                        (#[trigger] table[j]).0,
                    ) by {
                        assert(covered(s, table[j].0));
                    }
                }
            }
            assert(reachable.subset_of(names));
            assert(names =~= reachable);
        },
        StageView::Failed(_) => {},
    }
}

/// For a graph without cycles, no deeper than the bound, with N names that
/// can be reached, the resolution succeeds with exactly N dependencies
/// resolved: those that can be reached.
pub proof fn lemma_acyclic_graph_resolves_reachable_names(
    cache_dir: Seq<char>,
    manifest: ManifestView,
    pkg: spec_fn(Seq<char>) -> ManifestView,
    height: spec_fn(Seq<char>) -> nat,
    reachable: Set<Seq<char>>,
)
    requires
        shallow_acyclic_graph(manifest.dependencies, pkg, height, reachable),
    ensures
        ({
            let end = run(initial(cache_dir, manifest), pkg, reachable.len());
            &&& end.stage is Finished
            &&& end.resolved.len() == reachable.len()
            &&& distinct_names(end.resolved)
            &&& forall|n: Seq<char>| #[trigger] has_name(end.resolved, n) <==> reachable.contains(n)
        }),
{
    lemma_initial_on_course(cache_dir, manifest, pkg, height, reachable);
    lemma_run_finishes(
        initial(cache_dir, manifest),
        manifest.dependencies,
        pkg,
        height,
        reachable,
        reachable.len(),
    );
    lemma_run_on_course(
        initial(cache_dir, manifest),
        manifest.dependencies,
        pkg,
        height,
        reachable,
        reachable.len(),
    );
}

/// A traversal on course is on course after any number of fetches.
pub proof fn lemma_run_on_course(
    s: ResolutionView,
    roots: Seq<(Seq<char>, DependencyView)>,
    pkg: spec_fn(Seq<char>) -> ManifestView,
    height: spec_fn(Seq<char>) -> nat,
    reachable: Set<Seq<char>>,
    fuel: nat,
)
    requires
        shallow_acyclic_graph(roots, pkg, height, reachable),
        on_course(s, roots, pkg, height, reachable),
    ensures
        on_course(run(s, pkg, fuel), roots, pkg, height, reachable),
    decreases fuel,
{
    if fuel > 0 {
        match s.stage {
            StageView::Working(f) => {
                lemma_completed_on_course(s, f, roots, pkg, height, reachable);
                lemma_run_on_course(
                    completed(s, f, pkg(f.name)),
                    roots,
                    pkg,
                    height,
                    reachable,
                    (fuel - 1) as nat,
                );
            },
            _ => {},
        }
    }
}

/// Whether every entry of a worklist is called by one of `names` and lies
/// no deeper than one level below the bound.
pub open spec fn queue_within(queue: Seq<PendingView>, names: Set<Seq<char>>) -> bool {
    forall|i: int| 0 <= i < queue.len() ==> names.contains((#[trigger] queue[i]).name)
}

/// Whether every resolved record is called by one of `names`.
pub open spec fn resolved_within(
    resolved: Seq<(Seq<char>, DependencyInfoView)>,
    names: Set<Seq<char>>,
) -> bool {
    forall|i: int| 0 <= i < resolved.len() ==> names.contains((#[trigger] resolved[i]).0)
}

/// Whether a state stays within a set of names: no name is resolved twice,
/// and all it holds is called by one of them.
pub open spec fn within(s: ResolutionView, names: Set<Seq<char>>) -> bool {
    &&& distinct_names(s.resolved)
    &&& resolved_within(s.resolved, names)
    &&& queue_within(s.queue, names)
    &&& match s.stage {
        StageView::Working(f) => names.contains(f.name) && !has_name(s.resolved, f.name),
        _ => true,
    }
}

/// Whether the packages called by `names` depend only on names among them.
pub open spec fn closed_world(names: Set<Seq<char>>, pkg: spec_fn(Seq<char>) -> ManifestView) -> bool {
    forall|n: Seq<char>| #[trigger] names.contains(n) ==> holds_names(names, pkg(n).dependencies)
}

/// Serving a worklist keeps the state within the names, and the dependency
/// it stops at is not resolved yet.
pub proof fn lemma_advance_within(
    cache_dir: Seq<char>,
    queue: Seq<PendingView>,
    resolved: Seq<(Seq<char>, DependencyInfoView)>,
    names: Set<Seq<char>>,
)
    requires
        queue_within(queue, names),
    ensures
        queue_within(advance(cache_dir, queue, resolved).0, names),
        match advance(cache_dir, queue, resolved).1 {
            StageView::Working(f) => names.contains(f.name) && !has_name(resolved, f.name),
            _ => true,
        },
    decreases queue.len(),
{
    if queue.len() > 0 {
        let tail = queue.drop_first();
        assert(names.contains(queue[0].name));
        assert forall|i: int| 0 <= i < tail.len() implies names.contains(
            (#[trigger] tail[i]).name,
        ) by {
            assert(tail[i] == queue[i + 1]);
        }
        if queue[0].depth <= MAX_DEPTH && has_name(resolved, queue[0].name) {
            lemma_advance_within(cache_dir, tail, resolved, names);
        }
    }
}

/// Whatever the graph, with cycles or without: where finitely many names
/// can be met, the traversal ends, finished or failed, after at most as
/// many fetches as there are names. It cannot go on for ever.
pub proof fn lemma_traversal_ends(
    s: ResolutionView,
    pkg: spec_fn(Seq<char>) -> ManifestView,
    names: Set<Seq<char>>,
    fuel: nat,
)
    requires
        names.finite(),
        closed_world(names, pkg),
        within(s, names),
        s.resolved.len() + fuel >= names.len(),
    ensures
        !(run(s, pkg, fuel).stage is Working),
        run(s, pkg, fuel).resolved.len() <= names.len(),
    decreases fuel,
{
    lemma_count_resolved(s.resolved);
    let seen = resolved_names(s.resolved).to_set();
    assert(seen.subset_of(names)) by {
        assert forall|n: Seq<char>| seen.contains(n) implies names.contains(n) by {
            let i = place_of(s.resolved, n);
            assert(names.contains(s.resolved[i].0));
        }
    }
    vstd::set_lib::lemma_len_subset(seen, names);
    match s.stage {
        StageView::Working(f) => {
            let more = seen.insert(f.name);
            assert(more.subset_of(names));
            vstd::set_lib::lemma_len_subset(more, names);
            assert(more.len() == seen.len() + 1);
            assert(fuel > 0);
            let m = pkg(f.name);
            let resolved = s.resolved.push((f.name, record(f, m)));
            let children = seeded(m.dependencies, (f.depth + 1) as usize);
            let grown = s.queue + children;
            assert(holds_names(names, m.dependencies));
            assert forall|i: int| 0 <= i < grown.len() implies names.contains(
                (#[trigger] grown[i]).name,
            ) by {
                if i < s.queue.len() {
                    assert(grown[i] == s.queue[i]);
                } else {
                    let j = i - s.queue.len();
                    assert(grown[i] == children[j]);
                    assert(children[j].name == m.dependencies[j].0);
                }
            }
            lemma_advance_within(s.cache_dir, grown, resolved, names);
            assert forall|i: int, j: int| 0 <= i < j < resolved.len() implies resolved[i].0
                != resolved[j].0 by {
                if j == s.resolved.len() {
                    assert(s.resolved[i].0 == resolved[i].0);
                } else {
                    assert(s.resolved[i].0 != s.resolved[j].0);
                }
            }
            assert forall|i: int| 0 <= i < resolved.len() implies names.contains(
                (#[trigger] resolved[i]).0,
            ) by {
                if i < s.resolved.len() {
                    assert(resolved[i] == s.resolved[i]);
                }
            }
            lemma_traversal_ends(completed(s, f, m), pkg, names, (fuel - 1) as nat);
        },
        _ => {},
    }
}

/// The traversal of any manifest in a world of finitely many packages
/// ends after at most as many fetches as there are packages.
pub proof fn lemma_resolution_ends(
    cache_dir: Seq<char>,
    manifest: ManifestView,
    pkg: spec_fn(Seq<char>) -> ManifestView,
    names: Set<Seq<char>>,
)
    requires
        names.finite(),
        closed_world(names, pkg),
        holds_names(names, manifest.dependencies),
    ensures
        !(run(initial(cache_dir, manifest), pkg, names.len()).stage is Working),
{
    let queue = seeded(manifest.dependencies, 0);
    let empty = Seq::<(Seq<char>, DependencyInfoView)>::empty();
    assert forall|i: int| 0 <= i < queue.len() implies names.contains(
        (#[trigger] queue[i]).name,
    ) by {
        assert(queue[i].name == manifest.dependencies[i].0);
    }
    lemma_advance_within(cache_dir, queue, empty, names);
    lemma_traversal_ends(initial(cache_dir, manifest), pkg, names, names.len());
}

/// A chain of packages: `link(0)` is the one direct dependency of the
/// manifest, and up to the bound the package `link(i)` depends on
/// `link(i + 1)` and on nothing else. The names up to the bound differ
/// from one another, and every declaration selects a source. The chain
/// may be part of a cycle that closes beyond the bound.
pub open spec fn long_chain(
    roots: Seq<(Seq<char>, DependencyView)>,
    pkg: spec_fn(Seq<char>) -> ManifestView,
    link: spec_fn(int) -> Seq<char>,
) -> bool {
    &&& roots.len() == 1
    &&& roots[0].0 == link(0)
    &&& selected_plan(roots[0].1) is Some
    &&& forall|i: int|
        0 <= i <= MAX_DEPTH ==> (#[trigger] pkg(link(i))).dependencies.len() == 1
    &&& forall|i: int|
        0 <= i <= MAX_DEPTH ==> (#[trigger] pkg(link(i))).dependencies[0].0 == link(i + 1)
    &&& forall|i: int|
        0 <= i <= MAX_DEPTH ==> selected_plan((#[trigger] pkg(link(i))).dependencies[0].1) is Some
    &&& forall|i: int, j: int|
        0 <= i < j <= MAX_DEPTH ==> #[trigger] link(i) != #[trigger] link(j)
}

/// The state of the traversal of a chain when its link `i` is being
/// fetched: the links before it are resolved and nothing is waiting.
pub open spec fn at_link(s: ResolutionView, link: spec_fn(int) -> Seq<char>, i: int) -> bool {
    &&& s.queue.len() == 0
    &&& s.resolved.len() == i
    &&& forall|k: int| 0 <= k < i ==> (#[trigger] s.resolved[k]).0 == link(k)
    &&& match s.stage {
        StageView::Working(f) => f.name == link(i) && f.depth == i,
        _ => false,
    }
}

/// From link `i` of a chain on, the traversal fails with `DepthExceeded`
/// at the link just beyond the bound.
pub proof fn lemma_chain_from_link(
    s: ResolutionView,
    roots: Seq<(Seq<char>, DependencyView)>,
    pkg: spec_fn(Seq<char>) -> ManifestView,
    link: spec_fn(int) -> Seq<char>,
    i: int,
)
    requires
        long_chain(roots, pkg, link),
        0 <= i <= MAX_DEPTH,
        at_link(s, link, i),
    ensures
        run(s, pkg, (MAX_DEPTH + 1 - i) as nat).stage == failure(
            ErrorKind::DepthExceeded,
            link(MAX_DEPTH + 1),
        ),
    decreases MAX_DEPTH - i,
{
    let f = s.stage->Working_0;
    let m = pkg(link(i));
    let resolved = s.resolved.push((f.name, record(f, m)));
    let children = seeded(m.dependencies, (f.depth + 1) as usize);
    let grown = s.queue + children;
    let next = completed(s, f, m);
    assert(grown.len() == 1);
    assert(grown[0] == children[0]);
    assert(grown[0].name == link(i + 1));
    assert(grown[0].depth == i + 1);
    assert(grown[0].dependency == m.dependencies[0].1);
    assert(grown.drop_first().len() == 0);
    if i == MAX_DEPTH {
        assert(next.stage == failure(ErrorKind::DepthExceeded, link(MAX_DEPTH + 1)));
        assert(run(next, pkg, 0) == next);
    } else {
        assert(!has_name(resolved, link(i + 1))) by {
            if has_name(resolved, link(i + 1)) {
                let k = place_of(resolved, link(i + 1));
                if k < i {
                    assert(resolved[k] == s.resolved[k]);
                    assert(link(k) != link(i + 1));
                } else {
                    assert(link(i) != link(i + 1));
                }
            }
        }
        assert(advance(s.cache_dir, grown.drop_first(), resolved).1 is Finished);
        assert(at_link(next, link, i + 1)) by {
            assert forall|k: int| 0 <= k < i + 1 implies (#[trigger] next.resolved[k]).0
                == link(k) by {
                if k < i {
                    assert(next.resolved[k] == s.resolved[k]);
                }
            }
        }
        lemma_chain_from_link(next, roots, pkg, link, i + 1);
    }
}

/// A chain of dependencies longer than the bound, be it part of a cycle
/// or not, fails the resolution with `DepthExceeded`, after one fetch for
/// each level down to the bound.
pub proof fn lemma_long_chain_exceeds_depth(
    cache_dir: Seq<char>,
    manifest: ManifestView,
    pkg: spec_fn(Seq<char>) -> ManifestView,
    link: spec_fn(int) -> Seq<char>,
)
    requires
        long_chain(manifest.dependencies, pkg, link),
    ensures
        run(initial(cache_dir, manifest), pkg, (MAX_DEPTH + 1) as nat).stage == failure(
            ErrorKind::DepthExceeded,
            link(MAX_DEPTH + 1),
        ),
{
    let queue = seeded(manifest.dependencies, 0);
    let empty = Seq::<(Seq<char>, DependencyInfoView)>::empty();
    assert(queue[0].name == link(0));
    assert(queue[0].dependency == manifest.dependencies[0].1);
    assert(!has_name(empty, link(0)));
    assert(queue.drop_first().len() == 0);
    let s = initial(cache_dir, manifest);
    assert(at_link(s, link, 0));
    lemma_chain_from_link(s, manifest.dependencies, pkg, link, 0);
}

} // verus!
