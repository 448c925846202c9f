//! Where a declared dependency is fetched from and where it is kept: the
//! choice among registry, path and git, the cache identity of what is
//! fetched, and the commands that clone a repository.

use vstd::prelude::*;
use vstd::string::*;
use crate::dependency::DependencySource;
use crate::manifest::{copy_opt, text_opt, Dependency, DependencyView};
use crate::text::{join2, join3, owned, push_char, texts};

verus! {

/// What a fetch plan holds, as plain text.
pub enum FetchPlanView {
    Registry { version: Seq<char> },
    Path { path: Seq<char> },
    Git { url: Seq<char>, branch: Option<Seq<char>>, tag: Option<Seq<char>>, rev: Option<Seq<char>> },
}

/// How one dependency is to be fetched.
#[derive(Debug)]
pub enum FetchPlan {
    /// From the registry, in this version
    Registry { version: String },
    /// From this local directory
    Path { path: String },
    /// From the git repository at `url`
    Git { url: String, branch: Option<String>, tag: Option<String>, rev: Option<String> },
}

impl View for FetchPlan {
    type V = FetchPlanView;

    open spec fn view(&self) -> FetchPlanView {
        match self {
            FetchPlan::Registry { version } => FetchPlanView::Registry { version: version@ },
            FetchPlan::Path { path } => FetchPlanView::Path { path: path@ },
            FetchPlan::Git { url, branch, tag, rev } => FetchPlanView::Git {
                url: url@,
                branch: text_opt(*branch),
                tag: text_opt(*tag),
                rev: text_opt(*rev),
            },
        }
    }
}

impl Clone for FetchPlan {
    fn clone(&self) -> (r: Self)
        ensures
            r@ == self@,
    {
        match self {
            FetchPlan::Registry { version } => FetchPlan::Registry { version: version.clone() },
            FetchPlan::Path { path } => FetchPlan::Path { path: path.clone() },
            FetchPlan::Git { url, branch, tag, rev } => FetchPlan::Git {
                url: url.clone(),
                branch: copy_opt(branch),
                tag: copy_opt(tag),
                rev: copy_opt(rev),
            },
        }
    }
}

/// The source kind that a plan fetches from.
pub open spec fn plan_source(plan: FetchPlanView) -> DependencySource {
    match plan {
        FetchPlanView::Registry { .. } => DependencySource::Registry,
        FetchPlanView::Path { .. } => DependencySource::Path,
        FetchPlanView::Git { .. } => DependencySource::Git,
    }
}

impl FetchPlan {
    /// The source kind that the plan fetches from.
    pub fn source(&self) -> (r: DependencySource)
        ensures
            r == plan_source(self@),
    {
        match self {
            FetchPlan::Registry { .. } => DependencySource::Registry,
            FetchPlan::Path { .. } => DependencySource::Path,
            FetchPlan::Git { .. } => DependencySource::Git,
        }
    }
}

/// The revision that a git plan names.
pub open spec fn plan_rev(plan: FetchPlanView) -> Option<Seq<char>> {
    match plan {
        FetchPlanView::Git { rev, .. } => rev,
        _ => None,
    }
}

impl FetchPlan {
    /// Whether the plan names a revision to check out.
    pub fn has_rev(&self) -> (r: bool)
        ensures
            r == (plan_rev(self@) is Some),
    {
        match self {
            FetchPlan::Git { rev: Some(_), .. } => true,
            _ => false,
        }
    }
}

/// The plan that a declaration selects. A bare version selects the
/// registry. In a table, `path` goes before `git` and `git` before
/// `version`; a table with none of the three selects nothing.
pub open spec fn selected_plan(d: DependencyView) -> Option<FetchPlanView> {
    match d {
        DependencyView::Simple(version) => Some(FetchPlanView::Registry { version }),
        DependencyView::Detailed(t) => {
            if t.path is Some {
                Some(FetchPlanView::Path { path: t.path->0 })
            } else if t.git is Some {
                Some(FetchPlanView::Git { url: t.git->0, branch: t.branch, tag: t.tag, rev: t.rev })
            } else if t.version is Some {
                Some(FetchPlanView::Registry { version: t.version->0 })
            } else {
                None
            }
        },
    }
}

/// The view of an optional plan.
pub open spec fn plan_opt(p: Option<FetchPlan>) -> Option<FetchPlanView> {
    match p {
        Some(plan) => Some(plan@),
        None => None,
    }
}

/// Selects how `dep` is to be fetched; `None` where the declaration names
/// neither a path, nor a repository, nor a version.
pub fn select_plan(dep: &Dependency) -> (r: Option<FetchPlan>)
    ensures
        plan_opt(r) == selected_plan(dep@),
{
    match dep {
        Dependency::Simple(version) => Some(FetchPlan::Registry { version: version.clone() }),
        Dependency::Detailed(t) => {
            match &t.path {
                Some(path) => Some(FetchPlan::Path { path: path.clone() }),
                None => match &t.git {
                    Some(url) => Some(
                        FetchPlan::Git {
                            url: url.clone(),
                            branch: copy_opt(&t.branch),
                            tag: copy_opt(&t.tag),
                            rev: copy_opt(&t.rev),
                        },
                    ),
                    None => match &t.version {
                        Some(version) => Some(FetchPlan::Registry { version: version.clone() }),
                        None => None,
                    },
                },
            }
        },
    }
}

/// The cache identity of a registry package: name, hyphen, version.
pub open spec fn registry_identity(name: Seq<char>, version: Seq<char>) -> Seq<char> {
    name + "-"@ + version
}

/// The cache identity of a registry package.
pub fn registry_cache_key(name: &str, version: &str) -> (r: String)
    ensures
        r@ == registry_identity(name@, version@),
{
    join3(name, "-", version)
}

/// The reference that names a git checkout in the cache: the branch, else
/// the tag, else the revision, else `HEAD`.
pub open spec fn git_reference(
    branch: Option<Seq<char>>,
    tag: Option<Seq<char>>,
    rev: Option<Seq<char>>,
) -> Seq<char> {
    if branch is Some {
        branch->0
    } else if tag is Some {
        tag->0
    } else if rev is Some {
        rev->0
    } else {
        "HEAD"@
    }
}

/// The reference that names a git checkout in the cache.
pub fn git_ref(branch: &Option<String>, tag: &Option<String>, rev: &Option<String>) -> (r: String)
    ensures
        r@ == git_reference(text_opt(*branch), text_opt(*tag), text_opt(*rev)),
{
    match branch {
        Some(b) => b.clone(),
        None => match tag {
            Some(t) => t.clone(),
            None => match rev {
                Some(v) => v.clone(),
                None => owned("HEAD"),
            },
        },
    }
}

/// A repository URL with every slash and colon replaced by an underscore.
pub open spec fn sanitized_url(url: Seq<char>) -> Seq<char> {
    url.map_values(|c: char| if c == '/' || c == ':' { '_' } else { c })
}

/// A git reference with every slash replaced by an underscore.
pub open spec fn sanitized_ref(reference: Seq<char>) -> Seq<char> {
    reference.map_values(|c: char| if c == '/' { '_' } else { c })
}

/// A repository URL with every slash and colon replaced by an underscore.
pub fn sanitize_url(url: &str) -> (r: String)
    ensures
        r@ == sanitized_url(url@),
{
    let n: usize = url.unicode_len();
    let mut r: String = String::new();
    let mut i: usize = 0;
    while i < n
        invariant
            n == url@.len(),
            i <= n,
            r@ == sanitized_url(url@.subrange(0, i as int)),
        decreases n - i,
    {
        let c: char = url.get_char(i);
        let ghost before = r@;
        if c == '/' || c == ':' {
            push_char(&mut r, '_');
        } else {
            push_char(&mut r, c);
        }
        assert(r@ =~= sanitized_url(url@.subrange(0, i + 1)));
        i += 1;
    }
    assert(url@.subrange(0, n as int) =~= url@);
    r
}

/// A git reference with every slash replaced by an underscore.
pub fn sanitize_ref(reference: &str) -> (r: String)
    ensures
        r@ == sanitized_ref(reference@),
{
    let n: usize = reference.unicode_len();
    let mut r: String = String::new();
    let mut i: usize = 0;
    while i < n
        invariant
            n == reference@.len(),
            i <= n,
            r@ == sanitized_ref(reference@.subrange(0, i as int)),
        decreases n - i,
    {
        let c: char = reference.get_char(i);
        if c == '/' {
            push_char(&mut r, '_');
        } else {
            push_char(&mut r, c);
        }
        assert(r@ =~= sanitized_ref(reference@.subrange(0, i + 1)));
        i += 1;
    }
    assert(reference@.subrange(0, n as int) =~= reference@);
    r
}

/// The cache identity of a git checkout: the sanitized URL, a hyphen, the
/// sanitized reference.
pub open spec fn git_identity(url: Seq<char>, reference: Seq<char>) -> Seq<char> {
    sanitized_url(url) + "-"@ + sanitized_ref(reference)
}

/// The cache identity of the checkout of `url` that `branch`, `tag` and
/// `rev` select.
pub fn git_cache_key(
    url: &str,
    branch: &Option<String>,
    tag: &Option<String>,
    rev: &Option<String>,
) -> (r: String)
    ensures
        r@ == git_identity(url@, git_reference(text_opt(*branch), text_opt(*tag), text_opt(*rev))),
{
    let reference = git_ref(branch, tag, rev);
    let a = sanitize_url(url);
    let b = sanitize_ref(reference.as_str());
    join3(a.as_str(), "-", b.as_str())
}

/// A checkout with no branch, tag or revision is kept under the reference
/// `HEAD`.
pub proof fn lemma_git_identity_defaults_to_head(url: Seq<char>)
    ensures
        git_identity(url, git_reference(None, None, None)) == sanitized_url(url) + "-"@
            + sanitized_ref("HEAD"@),
        sanitized_ref("HEAD"@) == "HEAD"@,
{
    reveal_strlit("HEAD");
    assert(sanitized_ref("HEAD"@) =~= "HEAD"@);
}

/// `part` below the directory `base`, in paths that separate their
/// components by `/`. An absolute `part` stands for itself; otherwise it
/// follows `base`, with one separator between them unless `base` is empty
/// or already ends in one.
pub open spec fn joined_path(base: Seq<char>, part: Seq<char>) -> Seq<char> {
    if part.len() > 0 && part[0] == '/' {
        part
    } else if base.len() == 0 || base.last() == '/' {
        base + part
    } else {
        base + seq!['/'] + part
    }
}

/// `part` below the directory `base`.
pub fn join_path(base: &str, part: &str) -> (r: String)
    ensures
        r@ == joined_path(base@, part@),
{
    let n: usize = base.unicode_len();
    let m: usize = part.unicode_len();
    if m > 0 && part.get_char(0) == '/' {
        return owned(part);
    }
    if n == 0 || base.get_char(n - 1) == '/' {
        return join2(base, part);
    }
    let mut r = owned(base);
    push_char(&mut r, '/');
    r.append(part);
    assert(r@ =~= base@ + seq!['/'] + part@);
    r
}

/// The cache: one directory below which every fetched dependency is kept
/// in the directory of its identity. What is found there is taken as it
/// is; nothing is ever refreshed or removed.
#[derive(Debug)]
pub struct CacheStore {
    root: String,
}

impl CacheStore {
    /// The directory of the cache.
    pub closed spec fn root_path(&self) -> Seq<char> {
        self.root@
    }

    /// The cache in the directory `root`.
    pub fn new(root: String) -> (r: Self)
        ensures
            r.root_path() == root@,
    {
        CacheStore { root }
    }

    /// The directory of the cache.
    pub fn root(&self) -> (r: &str)
        ensures
            r@ == self.root_path(),
    {
        self.root.as_str()
    }

    /// The directory in which what has the identity `identity` is kept.
    pub fn path_for(&self, identity: &str) -> (r: String)
        ensures
            r@ == joined_path(self.root_path(), identity@),
    {
        join_path(self.root.as_str(), identity)
    }

    /// A second handle on the same cache.
    pub fn duplicate(&self) -> (r: Self)
        ensures
            r.root_path() == self.root_path(),
    {
        CacheStore { root: self.root.clone() }
    }
}

/// The arguments with which git clones `url` into `dest`, on `branch`
/// where one is given.
pub open spec fn clone_arguments(url: Seq<char>, branch: Option<Seq<char>>, dest: Seq<char>) -> Seq<
    Seq<char>,
> {
    match branch {
        Some(b) => seq!["clone"@, "--branch"@, b, url, dest],
        None => seq!["clone"@, url, dest],
    }
}

/// The arguments with which git checks out `rev` in the repository at
/// `dest`.
pub open spec fn checkout_arguments(dest: Seq<char>, rev: Seq<char>) -> Seq<Seq<char>> {
    seq!["-C"@, dest, "checkout"@, rev]
}

/// The arguments with which git clones `url` into `dest`.
pub fn clone_args(url: &str, branch: &Option<String>, dest: &str) -> (r: Vec<String>)
    ensures
        texts(r@) == clone_arguments(url@, text_opt(*branch), dest@),
{
    let mut r: Vec<String> = Vec::new();
    r.push(owned("clone"));
    match branch {
        Some(b) => {
            r.push(owned("--branch"));
            r.push(b.clone());
        },
        None => {},
    }
    r.push(owned(url));
    r.push(owned(dest));
    assert(texts(r@) =~= clone_arguments(url@, text_opt(*branch), dest@));
    r
}

/// The arguments with which git checks out `rev` in the repository at
/// `dest`.
pub fn checkout_args(dest: &str, rev: &str) -> (r: Vec<String>)
    ensures
        texts(r@) == checkout_arguments(dest@, rev@),
{
    let mut r: Vec<String> = Vec::new();
    r.push(owned("-C"));
    r.push(owned(dest));
    r.push(owned("checkout"));
    r.push(owned(rev));
    assert(texts(r@) =~= checkout_arguments(dest@, rev@));
    r
}

} // verus!
