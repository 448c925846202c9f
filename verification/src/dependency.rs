//! Resolved dependencies, and how a declaration selects where a dependency
//! comes from.

use vstd::prelude::*;
use vstd::string::*;
use crate::manifest::{Manifest, ManifestView};
use crate::name_map::{has_name, NameMap};

verus! {

/// Where a dependency comes from.
#[derive(Debug, Clone, Copy, PartialEq, Eq, Structural)]
pub enum DependencySource {
    /// Dependency from the package registry
    Registry,
    /// Dependency from a local filesystem path
    Path,
    /// Dependency from a git repository
    Git,
}

/// What a resolved dependency holds, as plain values.
pub struct DependencyInfoView {
    pub name: Seq<char>,
    pub version: Seq<char>,
    pub path: Seq<char>,
    pub manifest: ManifestView,
    pub source: DependencySource,
}

/// One dependency that was located and whose manifest was loaded.
#[derive(Debug)]
pub struct DependencyInfo {
    /// The name that the dependency's own manifest gives it
    pub name: String,
    /// The version that the dependency's own manifest gives it
    pub version: String,
    /// The directory that holds the dependency
    pub path: String,
    /// The dependency's manifest
    pub manifest: Manifest,
    /// The source of the dependency
    pub source: DependencySource,
}

impl View for DependencyInfo {
    type V = DependencyInfoView;

    open spec fn view(&self) -> DependencyInfoView {
        DependencyInfoView {
            name: self.name@,
            version: self.version@,
            path: self.path@,
            manifest: self.manifest@,
            source: self.source,
        }
    }
}

impl DependencyInfo {
    /// The dependency's manifest names no dependency twice.
    pub open spec fn wf(&self) -> bool {
        self.manifest.wf()
    }

    /// The record of a dependency found in directory `path` with the
    /// manifest `manifest`: name and version are the manifest's.
    pub fn from_manifest(path: String, manifest: Manifest, source: DependencySource) -> (r: Self)
        requires
            manifest.wf(),
        ensures
            r.wf(),
            r@ == (DependencyInfoView {
                name: manifest@.package.name,
                version: manifest@.package.version,
                path: path@,
                manifest: manifest@,
                source,
            }),
            r.manifest == manifest,
    {
        DependencyInfo {
            name: manifest.package.name.clone(),
            version: manifest.package.version.clone(),
            path,
            manifest,
            source,
        }
    }
}

/// The dependencies resolved in one traversal, by the name under which each
/// was declared, in the order in which they were resolved.
#[derive(Debug)]
pub struct ResolvedDependencies {
    dependencies: NameMap<DependencyInfo>,
}

impl View for ResolvedDependencies {
    type V = Map<Seq<char>, DependencyInfoView>;

    open spec fn view(&self) -> Map<Seq<char>, DependencyInfoView> {
        Map::new(
            |name: Seq<char>| self.table()@.contains_key(name),
            |name: Seq<char>| self.table()@[name]@,
        )
    }
}

impl ResolvedDependencies {
    /// The records by name.
    pub closed spec fn table(&self) -> NameMap<DependencyInfo> {
        self.dependencies
    }

    /// No name occurs twice, and no record's manifest names a dependency
    /// twice.
    pub open spec fn wf(&self) -> bool {
        &&& self.table().wf()
        &&& forall|i: int|
            0 <= i < self.table().items().len() ==> (#[trigger] self.table().items()[i]).1.wf()
    }

    /// An empty set.
    pub fn new() -> (r: Self)
        ensures
            r.wf(),
            r.table().items() == Seq::<(Seq<char>, DependencyInfo)>::empty(),
            r@ == Map::<Seq<char>, DependencyInfoView>::empty(),
    {
        let r = ResolvedDependencies { dependencies: NameMap::new() };
        assert(r@ =~= Map::<Seq<char>, DependencyInfoView>::empty());
        r
    }

    /// Whether a dependency was resolved under `name`.
    pub fn contains(&self, name: &str) -> (r: bool)
        ensures
            r == self@.contains_key(name@),
            r == has_name(self.table().items(), name@),
    {
        self.dependencies.contains_key(name)
    }

    /// Records `info` under `name`. A record that was there under this name
    /// is replaced.
    pub fn add(&mut self, name: String, info: DependencyInfo)
        requires
            old(self).wf(),
            info.wf(),
        ensures
            final(self).wf(),
            final(self)@ == old(self)@.insert(name@, info@),
            final(self).table()@ == old(self).table()@.insert(name@, info),
            !old(self)@.contains_key(name@) ==> final(self).table().items()
                == old(self).table().items().push((name@, info)),
    {
        let ghost before = self.dependencies.items();
        self.dependencies.insert(name, info);
        assert(self@ =~= old(self)@.insert(name@, info@));
        proof {
            let after = self.dependencies.items();
            assert forall|i: int| 0 <= i < after.len() implies (#[trigger] after[i]).1.wf() by {
                if has_name(before, name@) {
                    let p = choose|p: int|
                        0 <= p < before.len() && before[p].0 == name@ && after == before.update(
                            p,
                            (name@, info),
                        );
                    if i != p {
                        assert(after[i] == before[i]);
                    }
                } else {
                    if i < before.len() {
                        assert(after[i] == before[i]);
                    }
                }
            }
        }
    }

    /// Get all dependencies
    pub fn all(&self) -> (r: &NameMap<DependencyInfo>)
        ensures
            *r == self.table(),
    {
        &self.dependencies
    }

    /// Get dependency by name.
    pub fn get(&self, name: &str) -> (r: Option<&DependencyInfo>)
        requires
            self.wf(),
        ensures
            match r {
                Some(info) => self@.contains_key(name@) && info@ == self@[name@] && *info
                    == self.table()@[name@],
                None => !self@.contains_key(name@),
            },
    {
        self.dependencies.get(name)
    }
}

} // verus!
