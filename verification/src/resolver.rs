//! The traversal of the dependency graph, as a machine that is told what
//! happened and answers what to do next.
//!
//! The machine holds the worklist and the dependencies resolved so far. It
//! never touches a file, the network or a process: it asks for each such
//! piece of work with an [`Action`] and is told the outcome with an
//! [`Event`]. The worklist is served first in, first out, so the graph is
//! walked breadth first, and the first declaration met under a name is the
//! one that is resolved.

use std::collections::VecDeque;
use vstd::prelude::*;
use vstd::string::*;
use crate::dependency::{DependencyInfo, DependencyInfoView, DependencySource, ResolvedDependencies};
use crate::fetch::{
    checkout_args, checkout_arguments, clone_args, clone_arguments, git_cache_key, git_identity,
    git_reference, join_path, joined_path, plan_rev, plan_source, registry_cache_key,
    registry_identity, CacheStore,
    select_plan, selected_plan, FetchPlan, FetchPlanView,
};
use crate::manifest::{validation, Dependency, DependencyView, Manifest, ManifestView};
use crate::name_map::has_name;
use crate::text::{owned, texts};

verus! {

/// The deepest level of the dependency graph that is still resolved.
pub const MAX_DEPTH: usize = 100;

/// The kinds of failure of a resolution.
#[derive(Debug, Clone, Copy, PartialEq, Eq, Structural)]
pub enum ErrorKind {
    /// A declaration names neither a path, nor a repository, nor a version.
    SpecError,
    /// The traversal went deeper than [`MAX_DEPTH`].
    DepthExceeded,
    /// A local path or a registry package does not exist.
    NotFound,
    /// The network or an external command failed.
    FetchError,
    /// An archive could not be unpacked.
    ExtractError,
    /// A manifest could not be read or breaks a rule.
    ParseError,
}

/// What a failure holds, as plain values.
pub struct ResolveErrorView {
    pub kind: ErrorKind,
    pub dependency: Seq<char>,
}

/// A failure, and the declared name of the dependency at which it came.
#[derive(Debug)]
pub struct ResolveError {
    pub kind: ErrorKind,
    pub dependency: String,
}

impl View for ResolveError {
    type V = ResolveErrorView;

    open spec fn view(&self) -> ResolveErrorView {
        ResolveErrorView { kind: self.kind, dependency: self.dependency@ }
    }
}

impl Clone for ResolveError {
    fn clone(&self) -> (r: Self)
        ensures
            r@ == self@,
    {
        ResolveError { kind: self.kind, dependency: self.dependency.clone() }
    }
}

/// What a worklist entry holds, as plain values.
pub struct PendingView {
    pub name: Seq<char>,
    pub dependency: DependencyView,
    pub depth: usize,
}

/// A declaration waiting to be resolved, with its depth in the graph.
#[derive(Debug)]
pub struct Pending {
    pub name: String,
    pub dependency: Dependency,
    pub depth: usize,
}

impl View for Pending {
    type V = PendingView;

    open spec fn view(&self) -> PendingView {
        PendingView { name: self.name@, dependency: self.dependency@, depth: self.depth }
    }
}

/// The piece of work on which the fetch of a dependency is waiting.
#[derive(Debug, Clone, Copy, PartialEq, Eq, Structural)]
pub enum Step {
    /// Whether the directory exists
    Probe,
    /// The download of the archive from the registry
    Download,
    /// The unpacking of the archive
    Extract,
    /// The clone of the repository
    Clone,
    /// The checkout of the declared revision
    Checkout,
    /// The reading of the manifest
    Load,
}

/// What the fetch under way holds, as plain values.
pub struct InFlightView {
    pub name: Seq<char>,
    pub depth: usize,
    pub plan: FetchPlanView,
    pub dir: Seq<char>,
    pub step: Step,
}

/// The dependency that is being fetched.
#[derive(Debug)]
pub struct InFlight {
    pub name: String,
    pub depth: usize,
    pub plan: FetchPlan,
    pub dir: String,
    pub step: Step,
}

impl View for InFlight {
    type V = InFlightView;

    open spec fn view(&self) -> InFlightView {
        InFlightView {
            name: self.name@,
            depth: self.depth,
            plan: self.plan@,
            dir: self.dir@,
            step: self.step,
        }
    }
}

/// What an action holds, as plain values.
pub enum ActionView {
    Probe { path: Seq<char> },
    Download { name: Seq<char>, version: Seq<char> },
    Extract { archive: Seq<u8>, dest: Seq<char> },
    Run { program: Seq<char>, args: Seq<Seq<char>> },
    Load { path: Seq<char> },
    Finish,
    Fail(ResolveErrorView),
}

/// What the caller is asked to do next.
#[derive(Debug)]
pub enum Action {
    /// Report with [`Event::Exists`] whether the directory `path` exists.
    Probe { path: String },
    /// Download the archive of the registry package and report it with
    /// [`Event::Downloaded`], or [`Event::NotFound`] where the registry has
    /// no such package.
    Download { name: String, version: String },
    /// Create the directory `dest` and unpack `archive` into it.
    Extract { archive: Vec<u8>, dest: String },
    /// Run `program` with `args` and wait for it to exit.
    Run { program: String, args: Vec<String> },
    /// Read the manifest file at `path` and report it with
    /// [`Event::Loaded`].
    Load { path: String },
    /// Nothing is left to do: the resolution is complete.
    Finish,
    /// The resolution failed.
    Fail(ResolveError),
}

impl View for Action {
    type V = ActionView;

    open spec fn view(&self) -> ActionView {
        match self {
            Action::Probe { path } => ActionView::Probe { path: path@ },
            Action::Download { name, version } => ActionView::Download {
                name: name@,
                version: version@,
            },
            Action::Extract { archive, dest } => ActionView::Extract {
                archive: archive@,
                dest: dest@,
            },
            Action::Run { program, args } => ActionView::Run {
                program: program@,
                args: texts(args@),
            },
            Action::Load { path } => ActionView::Load { path: path@ },
            Action::Finish => ActionView::Finish,
            Action::Fail(e) => ActionView::Fail(e@),
        }
    }
}

/// What an event holds, as plain values.
pub enum EventView {
    Exists(bool),
    Downloaded(Seq<u8>),
    NotFound,
    Done,
    Failed,
    Loaded(ManifestView),
}

/// What came of the action that was asked for last.
#[derive(Debug)]
pub enum Event {
    /// Whether the probed directory exists
    Exists(bool),
    /// The archive that the registry sent
    Downloaded(Vec<u8>),
    /// The registry has no such package
    NotFound,
    /// The work was done
    Done,
    /// The work could not be done
    Failed,
    /// The manifest that was read
    Loaded(Manifest),
}

impl View for Event {
    type V = EventView;

    open spec fn view(&self) -> EventView {
        match self {
            Event::Exists(b) => EventView::Exists(*b),
            Event::Downloaded(bytes) => EventView::Downloaded(bytes@),
            Event::NotFound => EventView::NotFound,
            Event::Done => EventView::Done,
            Event::Failed => EventView::Failed,
            Event::Loaded(m) => EventView::Loaded(m@),
        }
    }
}

impl Event {
    /// A manifest that the event carries names no dependency twice.
    pub open spec fn wf(&self) -> bool {
        match self {
            Event::Loaded(m) => m.wf(),
            _ => true,
        }
    }

    /// The event that reports what came of reading a manifest file: the
    /// manifest where the file could be read and its text is one, and the
    /// failure of the work else.
    pub fn from_manifest_text(text: Option<&str>) -> (r: Event)
        ensures
            r.wf(),
            match text {
                Some(t) => match crate::manifest_file::reading(t@) {
                    Ok(c) => match r {
                        Event::Loaded(m) => crate::manifest_file::content(m) == c,
                        _ => false,
                    },
                    Err(_) => r@ == EventView::Failed,
                },
                None => r@ == EventView::Failed,
            },
    {
        match text {
            Some(t) => match Manifest::from_toml(t) {
                Ok(m) => Event::Loaded(m),
                Err(_) => Event::Failed,
            },
            None => Event::Failed,
        }
    }
}

/// Where a resolution stands.
pub enum StageView {
    /// A dependency is being fetched.
    Working(InFlightView),
    /// Every dependency is resolved.
    Finished,
    /// The resolution failed.
    Failed(ResolveErrorView),
}

/// The state of a resolution, as plain values.
pub struct ResolutionView {
    /// The directory below which fetched dependencies are kept
    pub cache_dir: Seq<char>,
    /// The worklist, the entry to serve next in front
    pub queue: Seq<PendingView>,
    /// The dependencies resolved so far, each under its declared name
    pub resolved: Seq<(Seq<char>, DependencyInfoView)>,
    /// Where the resolution stands
    pub stage: StageView,
}

/// The worklist entries for the declarations of a dependency table, all at
/// `depth`.
pub open spec fn seeded(table: Seq<(Seq<char>, DependencyView)>, depth: usize) -> Seq<PendingView> {
    table.map_values(
        |e: (Seq<char>, DependencyView)| PendingView { name: e.0, dependency: e.1, depth },
    )
}

/// The directory of the dependency `name` fetched by `plan`: the declared
/// path, or the directory of its cache identity below `cache_dir`.
pub open spec fn directory(cache_dir: Seq<char>, name: Seq<char>, plan: FetchPlanView) -> Seq<char> {
    match plan {
        FetchPlanView::Registry { version } => joined_path(
            cache_dir,
            registry_identity(name, version),
        ),
        FetchPlanView::Path { path } => path,
        FetchPlanView::Git { url, branch, tag, rev } => joined_path(
            cache_dir,
            git_identity(url, git_reference(branch, tag, rev)),
        ),
    }
}

/// The failure of kind `kind` at the dependency `name`.
pub open spec fn failure(kind: ErrorKind, name: Seq<char>) -> StageView {
    StageView::Failed(ResolveErrorView { kind, dependency: name })
}

/// Serves the worklist until a dependency has to be fetched. An entry
/// deeper than [`MAX_DEPTH`] fails the resolution; an entry whose name is
/// already resolved is dropped; an entry whose declaration selects no
/// source fails the resolution. Gives the worklist that is left and the
/// stage reached.
pub open spec fn advance(
    cache_dir: Seq<char>,
    queue: Seq<PendingView>,
    resolved: Seq<(Seq<char>, DependencyInfoView)>,
) -> (Seq<PendingView>, StageView)
    decreases queue.len(),
{
    if queue.len() == 0 {
        (queue, StageView::Finished)
    } else {
        let head = queue[0];
        let rest = queue.drop_first();
        if head.depth > MAX_DEPTH {
            (rest, failure(ErrorKind::DepthExceeded, head.name))
        } else if has_name(resolved, head.name) {
            advance(cache_dir, rest, resolved)
        } else {
            match selected_plan(head.dependency) {
                None => (rest, failure(ErrorKind::SpecError, head.name)),
                Some(plan) => (
                    rest,
                    StageView::Working(
                        InFlightView {
                            name: head.name,
                            depth: head.depth,
                            plan,
                            dir: directory(cache_dir, head.name, plan),
                            step: Step::Probe,
                        },
                    ),
                ),
            }
        }
    }
}

/// The version that a registry plan names.
pub open spec fn plan_version(plan: FetchPlanView) -> Seq<char> {
    match plan {
        FetchPlanView::Registry { version } => version,
        _ => Seq::<char>::empty(),
    }
}

/// The repository that a git plan names.
pub open spec fn plan_url(plan: FetchPlanView) -> Seq<char> {
    match plan {
        FetchPlanView::Git { url, .. } => url,
        _ => Seq::<char>::empty(),
    }
}

/// The branch that a git plan names.
pub open spec fn plan_branch(plan: FetchPlanView) -> Option<Seq<char>> {
    match plan {
        FetchPlanView::Git { branch, .. } => branch,
        _ => None,
    }
}

/// The action that asks for the work on which the fetch `f` is waiting.
/// Unpacking is asked for where the archive arrives, not here.
pub open spec fn request(f: InFlightView) -> ActionView {
    match f.step {
        Step::Probe | Step::Extract => ActionView::Probe { path: f.dir },
        Step::Download => ActionView::Download { name: f.name, version: plan_version(f.plan) },
        Step::Clone => ActionView::Run {
            program: "git"@,
            args: clone_arguments(plan_url(f.plan), plan_branch(f.plan), f.dir),
        },
        Step::Checkout => ActionView::Run {
            program: "git"@,
            args: checkout_arguments(
                f.dir,
                match plan_rev(f.plan) {
                    Some(rev) => rev,
                    None => Seq::<char>::empty(),
                },
            ),
        },
        Step::Load => ActionView::Load { path: joined_path(f.dir, "Quantum.toml"@) },
    }
}

/// The action that a stage just entered asks for.
pub open spec fn entry_action(stage: StageView) -> ActionView {
    match stage {
        StageView::Working(f) => request(f),
        StageView::Finished => ActionView::Finish,
        StageView::Failed(e) => ActionView::Fail(e),
    }
}

/// The state in which the resolution of `manifest` starts: its
/// dependencies, not its development dependencies, are on the worklist at
/// depth 0, and the worklist has been served up to the first fetch.
pub open spec fn initial(cache_dir: Seq<char>, manifest: ManifestView) -> ResolutionView {
    let empty = Seq::<(Seq<char>, DependencyInfoView)>::empty();
    let (queue, stage) = advance(cache_dir, seeded(manifest.dependencies, 0), empty);
    ResolutionView { cache_dir, queue, resolved: empty, stage }
}

/// The record of the fetched dependency once its manifest `m` is loaded.
pub open spec fn record(f: InFlightView, m: ManifestView) -> DependencyInfoView {
    DependencyInfoView {
        name: m.package.name,
        version: m.package.version,
        path: f.dir,
        manifest: m,
        source: plan_source(f.plan),
    }
}

/// The state after the manifest `m` of the fetched dependency was loaded:
/// the dependency is resolved under its declared name, its own
/// dependencies are at the end of the worklist, one level deeper, and the
/// worklist has been served up to the next fetch.
pub open spec fn completed(s: ResolutionView, f: InFlightView, m: ManifestView) -> ResolutionView {
    let resolved = s.resolved.push((f.name, record(f, m)));
    let grown = s.queue + seeded(m.dependencies, (f.depth + 1) as usize);
    let (queue, stage) = advance(s.cache_dir, grown, resolved);
    ResolutionView { cache_dir: s.cache_dir, queue, resolved, stage }
}

/// The fetch `f` moved on to `step`.
pub open spec fn moved(s: ResolutionView, f: InFlightView, step: Step) -> ResolutionView {
    ResolutionView { stage: StageView::Working(InFlightView { step, ..f }), ..s }
}

/// The resolution failed at the fetch `f`.
pub open spec fn failed(s: ResolutionView, f: InFlightView, kind: ErrorKind) -> ResolutionView {
    ResolutionView { stage: failure(kind, f.name), ..s }
}

/// The state that follows `s` when `e` is reported. An event that does not
/// answer the work asked for counts as the failure of that work. A
/// resolution that is finished or has failed stays as it is.
pub open spec fn next_state(s: ResolutionView, e: EventView) -> ResolutionView {
    match s.stage {
        StageView::Finished => s,
        StageView::Failed(_) => s,
        StageView::Working(f) => match f.step {
            Step::Probe => match e {
                EventView::Exists(true) => moved(s, f, Step::Load),
                EventView::Exists(false) => match f.plan {
                    FetchPlanView::Registry { .. } => moved(s, f, Step::Download),
                    FetchPlanView::Path { .. } => failed(s, f, ErrorKind::NotFound),
                    FetchPlanView::Git { .. } => moved(s, f, Step::Clone),
                },
                _ => failed(s, f, ErrorKind::NotFound),
            },
            Step::Download => match e {
                EventView::Downloaded(_) => moved(s, f, Step::Extract),
                EventView::NotFound => failed(s, f, ErrorKind::NotFound),
                _ => failed(s, f, ErrorKind::FetchError),
            },
            Step::Extract => match e {
                EventView::Done => moved(s, f, Step::Load),
                _ => failed(s, f, ErrorKind::ExtractError),
            },
            Step::Clone => match e {
                EventView::Done => if plan_rev(f.plan) is Some {
                    moved(s, f, Step::Checkout)
                } else {
                    moved(s, f, Step::Load)
                },
                _ => failed(s, f, ErrorKind::FetchError),
            },
            Step::Checkout => match e {
                EventView::Done => moved(s, f, Step::Load),
                _ => failed(s, f, ErrorKind::FetchError),
            },
            Step::Load => match e {
                EventView::Loaded(m) => if validation(m) is Ok {
                    completed(s, f, m)
                } else {
                    failed(s, f, ErrorKind::ParseError)
                },
                _ => failed(s, f, ErrorKind::ParseError),
            },
        },
    }
}

/// The action asked for when `e` is reported in state `s`: the unpacking
/// of an archive that arrived, and else what the state reached asks for.
pub open spec fn next_action(s: ResolutionView, e: EventView) -> ActionView {
    match (s.stage, e) {
        (StageView::Working(f), EventView::Downloaded(archive)) if f.step == Step::Download => {
            ActionView::Extract { archive, dest: f.dir }
        },
        _ => entry_action(next_state(s, e).stage),
    }
}

/// Whether a fetch under way is consistent: it is no deeper than
/// [`MAX_DEPTH`], and the work it waits for belongs to its plan.
pub open spec fn fetch_wf(f: InFlightView) -> bool {
    &&& f.depth <= MAX_DEPTH
    &&& (f.step == Step::Download || f.step == Step::Extract) ==> f.plan is Registry
    &&& (f.step == Step::Clone || f.step == Step::Checkout) ==> f.plan is Git
    &&& f.step == Step::Checkout ==> plan_rev(f.plan) is Some
}

/// Whether a state can be reached: no name is resolved twice, no worklist
/// entry lies more than one level below [`MAX_DEPTH`], and the dependency
/// that is being fetched is not resolved yet and has its directory where
/// [`directory`] puts it.
pub open spec fn state_wf(s: ResolutionView) -> bool {
    &&& crate::name_map::distinct_names(s.resolved)
    &&& forall|i: int| 0 <= i < s.queue.len() ==> (#[trigger] s.queue[i]).depth <= MAX_DEPTH + 1
    &&& match s.stage {
        StageView::Working(f) => {
            &&& fetch_wf(f)
            &&& !has_name(s.resolved, f.name)
            &&& f.dir == directory(s.cache_dir, f.name, f.plan)
        },
        _ => true,
    }
}

/// The views of worklist entries.
pub open spec fn pending_views(q: Seq<Pending>) -> Seq<PendingView> {
    q.map_values(|p: Pending| p@)
}

/// The views of resolved records, each with its declared name.
pub open spec fn info_views(items: Seq<(Seq<char>, DependencyInfo)>) -> Seq<
    (Seq<char>, DependencyInfoView),
> {
    items.map_values(|e: (Seq<char>, DependencyInfo)| (e.0, e.1@))
}

/// The names of resolved records are those of their views.
pub proof fn lemma_info_views_names(items: Seq<(Seq<char>, DependencyInfo)>, name: Seq<char>)
    ensures
        has_name(info_views(items), name) == has_name(items, name),
        crate::name_map::distinct_names(items) ==> crate::name_map::distinct_names(
            info_views(items),
        ),
{
    let views = info_views(items);
    if has_name(items, name) {
        let i = crate::name_map::place_of(items, name);
        assert(views[i].0 == name);
    }
    if has_name(views, name) {
        let i = crate::name_map::place_of(views, name);
        assert(items[i].0 == name);
    }
    if crate::name_map::distinct_names(items) {
        assert forall|i: int, j: int| 0 <= i < j < views.len() implies views[i].0 != views[j].0 by {
            assert(items[i].0 != items[j].0);
        }
    }
}

/// A resolution under way: the worklist, the dependencies resolved so far,
/// and the fetch that is waiting for the caller.
#[derive(Debug)]
pub struct Resolution {
    cache: CacheStore,
    queue: VecDeque<Pending>,
    resolved: ResolvedDependencies,
    current: Option<InFlight>,
    failure: Option<ResolveError>,
}

impl View for Resolution {
    type V = ResolutionView;

    closed spec fn view(&self) -> ResolutionView {
        ResolutionView {
            cache_dir: self.cache.root_path(),
            queue: pending_views(self.queue@),
            resolved: info_views(self.resolved.table().items()),
            stage: match self.failure {
                Some(e) => StageView::Failed(e@),
                None => match self.current {
                    Some(f) => StageView::Working(f@),
                    None => StageView::Finished,
                },
            },
        }
    }
}

/// The directory of the dependency `name` fetched by `plan`.
pub fn directory_of(cache: &CacheStore, name: &str, plan: &FetchPlan) -> (r: String)
    ensures
        r@ == directory(cache.root_path(), name@, plan@),
{
    match plan {
        FetchPlan::Registry { version } => {
            let key = registry_cache_key(name, version.as_str());
            cache.path_for(key.as_str())
        },
        FetchPlan::Path { path } => path.clone(),
        FetchPlan::Git { url, branch, tag, rev } => {
            let key = git_cache_key(url.as_str(), branch, tag, rev);
            cache.path_for(key.as_str())
        },
    }
}

/// The action that asks for the work on which the fetch `f` is waiting.
pub fn request_for(f: &InFlight) -> (r: Action)
    ensures
        r@ == request(f@),
{
    proof {
        reveal_strlit("");
    }
    assert(""@ =~= Seq::<char>::empty());
    match f.step {
        Step::Probe | Step::Extract => Action::Probe { path: f.dir.clone() },
        Step::Download => {
            let version = match &f.plan {
                FetchPlan::Registry { version } => version.clone(),
                _ => String::new(),
            };
            Action::Download { name: f.name.clone(), version }
        },
        Step::Clone => {
            let args = match &f.plan {
                FetchPlan::Git { url, branch, .. } => clone_args(
                    url.as_str(),
                    branch,
                    f.dir.as_str(),
                ),
                _ => clone_args("", &None, f.dir.as_str()),
            };
            Action::Run { program: owned("git"), args }
        },
        Step::Checkout => {
            let args = match &f.plan {
                FetchPlan::Git { rev: Some(rev), .. } => checkout_args(
                    f.dir.as_str(),
                    rev.as_str(),
                ),
                _ => checkout_args(f.dir.as_str(), ""),
            };
            Action::Run { program: owned("git"), args }
        },
        Step::Load => Action::Load { path: join_path(f.dir.as_str(), "Quantum.toml") },
    }
}

/// The cache directory of the user whose home directory is `home`:
/// `.quantum/cache` below it.
pub fn cache_dir_under(home: &str) -> (r: String)
    ensures
        r@ == joined_path(joined_path(home@, ".quantum"@), "cache"@),
{
    let base = join_path(home, ".quantum");
    join_path(base.as_str(), "cache")
}

/// Resolves the dependencies of manifests into one cache directory.
#[derive(Debug)]
pub struct DependencyResolver {
    cache: CacheStore,
}

impl DependencyResolver {
    /// The directory below which fetched dependencies are kept.
    pub closed spec fn cache_root(&self) -> Seq<char> {
        self.cache.root_path()
    }

    /// A resolver that keeps what it fetches below `cache_dir`.
    pub fn new(cache_dir: String) -> (r: Self)
        ensures
            r.cache_root() == cache_dir@,
    {
        DependencyResolver { cache: CacheStore::new(cache_dir) }
    }

    /// The directory below which fetched dependencies are kept.
    pub fn cache_dir(&self) -> (r: &str)
        ensures
            r@ == self.cache_root(),
    {
        self.cache.root()
    }

    /// Starts the resolution of the dependencies of `manifest`, and asks
    /// for the first piece of work. The caller does what is asked, reports
    /// it to [`Resolution::step`], and goes on so until the action is
    /// [`Action::Finish`] or [`Action::Fail`].
    pub fn resolve(&self, manifest: &Manifest) -> (r: (Resolution, Action))
        requires
            manifest.wf(),
        ensures
            r.0.wf(),
            r.0@ == initial(self.cache_root(), manifest@),
            r.1@ == entry_action(r.0@.stage),
    {
        let mut queue: VecDeque<Pending> = VecDeque::new();
        let ghost seeds = seeded(manifest@.dependencies, 0);
        let mut i: usize = 0;
        while i < manifest.dependencies.len()
            invariant
                manifest.wf(),
                i <= manifest.dependencies.items().len(),
                seeds == seeded(manifest@.dependencies, 0),
                seeds.len() == manifest.dependencies.items().len(),
                pending_views(queue@) == seeds.subrange(0, i as int),
            decreases manifest.dependencies.items().len() - i,
        {
            match manifest.dependencies.entry(i) {
                Some((name, dep)) => {
                    let ghost before = pending_views(queue@);
                    let p = Pending { name: name.clone(), dependency: dep.clone(), depth: 0 };
                    assert(p@ == seeds[i as int]);
                    queue.push_back(p);
                    assert(pending_views(queue@) =~= before.push(seeds[i as int]));
                    assert(pending_views(queue@) =~= seeds.subrange(0, i + 1));
                },
                None => {},
            }
            i += 1;
        }
        assert(seeds.subrange(0, seeds.len() as int) =~= seeds);
        let mut state = Resolution {
            cache: self.cache.duplicate(),
            queue,
            resolved: ResolvedDependencies::new(),
            current: None,
            failure: None,
        };
        assert(state@.resolved =~= Seq::<(Seq<char>, DependencyInfoView)>::empty());
        let a = state.serve();
        (state, a)
    }
}

impl Resolution {
    /// The state is consistent, and it can be reached.
    pub closed spec fn wf(&self) -> bool {
        &&& self.resolved.wf()
        &&& !(self.current is Some && self.failure is Some)
        &&& state_wf(self@)
    }

    /// Serves the worklist until a dependency has to be fetched.
    fn serve(&mut self) -> (a: Action)
        requires
            old(self).wf(),
            old(self).current is None,
            old(self).failure is None,
        ensures
            final(self).wf(),
            final(self)@.cache_dir == old(self)@.cache_dir,
            final(self)@.resolved == old(self)@.resolved,
            (final(self)@.queue, final(self)@.stage) == advance(
                old(self)@.cache_dir,
                old(self)@.queue,
                old(self)@.resolved,
            ),
            a@ == entry_action(final(self)@.stage),
    {
        loop
            invariant
                self.wf(),
                self.current is None,
                self.failure is None,
                self@.cache_dir == old(self)@.cache_dir,
                self@.resolved == old(self)@.resolved,
                advance(self@.cache_dir, self@.queue, self@.resolved) == advance(
                    old(self)@.cache_dir,
                    old(self)@.queue,
                    old(self)@.resolved,
                ),
            decreases self.queue@.len(),
        {
            let ghost before = self@;
            let ghost entries = self.queue@;
            match self.queue.pop_front() {
                None => {
                    assert(self@.queue =~= before.queue);
                    assert(before.queue.len() == 0);
                    assert(advance(before.cache_dir, before.queue, before.resolved) == (self@.queue, self@.stage));
                    return Action::Finish;
                },
                Some(p) => {
                    proof {
                        assert(before.queue[0] == p@);
                        assert(self@.queue =~= before.queue.drop_first());
                        assert forall|i: int| 0 <= i < self@.queue.len() implies (
                        #[trigger] self@.queue[i]).depth <= MAX_DEPTH + 1 by {
                            assert(self@.queue[i] == before.queue[i + 1]);
                        }
                        lemma_info_views_names(self.resolved.table().items(), p.name@);
                    }
                    if p.depth > MAX_DEPTH {
                        let e = ResolveError { kind: ErrorKind::DepthExceeded, dependency: p.name };
                        let a = Action::Fail(e.clone());
                        self.failure = Some(e);
                        assert(self@.stage == failure(ErrorKind::DepthExceeded, p@.name));
                        assert(self@.queue == before.queue.drop_first());
                        assert(advance(before.cache_dir, before.queue, before.resolved) == (self@.queue, self@.stage));
                        return a;
                    }
                    if !self.resolved.contains(p.name.as_str()) {
                        match select_plan(&p.dependency) {
                            None => {
                                let e = ResolveError {
                                    kind: ErrorKind::SpecError,
                                    dependency: p.name,
                                };
                                let a = Action::Fail(e.clone());
                                self.failure = Some(e);
                                assert(self@.stage == failure(ErrorKind::SpecError, p@.name));
                                assert(self@.queue == before.queue.drop_first());
                                assert(!has_name(before.resolved, p@.name));
                                assert(selected_plan(before.queue[0].dependency) is None);
                                assert(advance(before.cache_dir, before.queue, before.resolved) == (self@.queue, self@.stage));
                        return a;
                            },
                            Some(plan) => {
                                let dir = directory_of(&self.cache, p.name.as_str(), &plan);
                                let f = InFlight {
                                    name: p.name,
                                    depth: p.depth,
                                    plan,
                                    dir,
                                    step: Step::Probe,
                                };
                                let a = request_for(&f);
                                self.current = Some(f);
                                assert(self@.queue == before.queue.drop_first());
                                assert(!has_name(before.resolved, p@.name));
                                assert(selected_plan(before.queue[0].dependency) == Some(
                                    f@.plan,
                                ));
                                assert(advance(before.cache_dir, before.queue, before.resolved) == (self@.queue, self@.stage));
                        return a;
                            },
                        }
                    }
                },
            }
        }
    }

    /// Moves the fetch `f` on to `step` and asks for its work.
    fn move_to(&mut self, f: InFlight, step: Step) -> (a: Action)
        requires
            old(self).wf(),
            old(self).current is None,
            old(self).failure is None,
            fetch_wf(InFlightView { step, ..f@ }),
            !has_name(old(self)@.resolved, f@.name),
            f@.dir == directory(old(self)@.cache_dir, f@.name, f@.plan),
        ensures
            final(self).wf(),
            final(self)@ == (ResolutionView {
                stage: StageView::Working(InFlightView { step, ..f@ }),
                ..old(self)@
            }),
            a@ == request(InFlightView { step, ..f@ }),
    {
        let g = InFlight { name: f.name, depth: f.depth, plan: f.plan, dir: f.dir, step };
        let a = request_for(&g);
        self.current = Some(g);
        a
    }

    /// Fails the resolution at the dependency `name`.
    fn fail_at(&mut self, name: String, kind: ErrorKind) -> (a: Action)
        requires
            old(self).wf(),
            old(self).current is None,
            old(self).failure is None,
        ensures
            final(self).wf(),
            final(self)@ == (ResolutionView { stage: failure(kind, name@), ..old(self)@ }),
            a@ == ActionView::Fail(ResolveErrorView { kind, dependency: name@ }),
    {
        let e = ResolveError { kind, dependency: name };
        let a = Action::Fail(e.clone());
        self.failure = Some(e);
        a
    }

    /// Records the fetched dependency `f` with its manifest `m`, puts its
    /// own dependencies on the worklist and serves the worklist.
    fn complete(&mut self, f: InFlight, m: Manifest) -> (a: Action)
        requires
            old(self).wf(),
            old(self).current is None,
            old(self).failure is None,
            m.wf(),
            f@.depth <= MAX_DEPTH,
            !has_name(old(self)@.resolved, f@.name),
        ensures
            final(self).wf(),
            final(self)@ == completed(old(self)@, f@, m@),
            a@ == entry_action(final(self)@.stage),
    {
        let depth: usize = f.depth + 1;
        let ghost start = self@;
        let ghost children = seeded(m@.dependencies, depth);
        let mut i: usize = 0;
        while i < m.dependencies.len()
            invariant
                self.wf(),
                self.current is None,
                self.failure is None,
                m.wf(),
                depth <= MAX_DEPTH + 1,
                i <= m.dependencies.items().len(),
                children == seeded(m@.dependencies, depth),
                children.len() == m.dependencies.items().len(),
                self@.cache_dir == start.cache_dir,
                self@.resolved == start.resolved,
                self@.queue == start.queue + children.subrange(0, i as int),
            decreases m.dependencies.items().len() - i,
        {
            match m.dependencies.entry(i) {
                Some((name, dep)) => {
                    let ghost before = self@.queue;
                    let p = Pending { name: name.clone(), dependency: dep.clone(), depth };
                    assert(p@ == children[i as int]);
                    self.queue.push_back(p);
                    assert(self@.queue =~= before.push(children[i as int]));
                    assert(self@.queue =~= start.queue + children.subrange(0, i + 1));
                },
                None => {},
            }
            i += 1;
        }
        assert(children.subrange(0, children.len() as int) =~= children);
        proof {
            lemma_info_views_names(self.resolved.table().items(), f.name@);
        }
        let ghost items = self.resolved.table().items();
        let source = f.plan.source();
        let info = DependencyInfo::from_manifest(f.dir, m, source);
        assert(info@ == record(f@, m@));
        self.resolved.add(f.name, info);
        proof {
            let after = self.resolved.table().items();
            assert(after == items.push((f.name@, info)));
            assert(info_views(after) =~= info_views(items).push((f.name@, info@)));
            lemma_info_views_names(after, f.name@);
        }
        self.serve()
    }

    /// Takes in what came of the action asked for last and answers what to
    /// do next.
    pub fn step(&mut self, event: Event) -> (a: Action)
        requires
            old(self).wf(),
            event.wf(),
        ensures
            final(self).wf(),
            final(self)@ == next_state(old(self)@, event@),
            a@ == next_action(old(self)@, event@),
    {
        match &self.failure {
            Some(e) => {
                return Action::Fail(e.clone());
            },
            None => {},
        }
        let ghost before = self@;
        match self.current.take() {
            None => Action::Finish,
            Some(f) => {
                assert(before.stage == StageView::Working(f@));
                assert(self@ == (ResolutionView { stage: StageView::Finished, ..before }));
                match f.step {
                    Step::Probe => match event {
                        Event::Exists(true) => self.move_to(f, Step::Load),
                        Event::Exists(false) => match f.plan.source() {
                            DependencySource::Registry => self.move_to(f, Step::Download),
                            DependencySource::Path => self.fail_at(f.name, ErrorKind::NotFound),
                            DependencySource::Git => self.move_to(f, Step::Clone),
                        },
                        _ => self.fail_at(f.name, ErrorKind::NotFound),
                    },
                    Step::Download => match event {
                        Event::Downloaded(archive) => {
                            let dest = f.dir.clone();
                            let _ = self.move_to(f, Step::Extract);
                            Action::Extract { archive, dest }
                        },
                        Event::NotFound => self.fail_at(f.name, ErrorKind::NotFound),
                        _ => self.fail_at(f.name, ErrorKind::FetchError),
                    },
                    Step::Extract => match event {
                        Event::Done => self.move_to(f, Step::Load),
                        _ => self.fail_at(f.name, ErrorKind::ExtractError),
                    },
                    Step::Clone => match event {
                        Event::Done => {
                            if f.plan.has_rev() {
                                self.move_to(f, Step::Checkout)
                            } else {
                                self.move_to(f, Step::Load)
                            }
                        },
                        _ => self.fail_at(f.name, ErrorKind::FetchError),
                    },
                    Step::Checkout => match event {
                        Event::Done => self.move_to(f, Step::Load),
                        _ => self.fail_at(f.name, ErrorKind::FetchError),
                    },
                    Step::Load => match event {
                        Event::Loaded(m) => {
                            if m.validate().is_ok() {
                                self.complete(f, m)
                            } else {
                                self.fail_at(f.name, ErrorKind::ParseError)
                            }
                        },
                        _ => self.fail_at(f.name, ErrorKind::ParseError),
                    },
                }
            },
        }
    }

    /// Whether the resolution is complete.
    pub fn is_finished(&self) -> (r: bool)
        ensures
            r == (self@.stage is Finished),
    {
        self.failure.is_none() && self.current.is_none()
    }

    /// The dependencies resolved so far.
    pub fn resolved(&self) -> (r: &ResolvedDependencies)
        ensures
            info_views(r.table().items()) == self@.resolved,
    {
        &self.resolved
    }

    /// The resolved dependencies of a complete resolution, and nothing of
    /// one that is under way or has failed.
    pub fn into_resolved(self) -> (r: Option<ResolvedDependencies>)
        requires
            self.wf(),
        ensures
            r is Some <==> self@.stage is Finished,
            r is Some ==> r->0.wf() && info_views(r->0.table().items()) == self@.resolved,
    {
        if self.failure.is_none() && self.current.is_none() {
            Some(self.resolved)
        } else {
            None
        }
    }
}

} // verus!
