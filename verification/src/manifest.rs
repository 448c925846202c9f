//! The package manifest: its data, the values a fresh one starts with, and
//! the rules a loaded one has to meet.

use vstd::prelude::*;
use vstd::string::*;
use crate::name_map::{has_name, lemma_has_name_step, lemma_items_map_at, NameMap};
use crate::text::{is_u32_text, owned, parses_as_u32, same_text, split_on, split_text, texts};

verus! {

/// The view of an optional text.
pub open spec fn text_opt(o: Option<String>) -> Option<Seq<char>> {
    match o {
        Some(s) => Some(s@),
        None => None,
    }
}

/// A copy of an optional text.
pub fn copy_opt(o: &Option<String>) -> (r: Option<String>)
    ensures
        text_opt(r) == text_opt(*o),
{
    match o {
        Some(s) => Some(s.clone()),
        None => None,
    }
}

/// A copy of a list of texts.
pub fn copy_list(v: &Vec<String>) -> (r: Vec<String>)
    ensures
        texts(r@) == texts(v@),
{
    let mut r: Vec<String> = Vec::new();
    let mut i: usize = 0;
    while i < v.len()
        invariant
            i <= v.len(),
            r@.len() == i,
            forall|j: int| 0 <= j < i ==> r@[j]@ == v@[j]@,
        decreases v.len() - i,
    {
        r.push(v[i].clone());
        i += 1;
    }
    assert(texts(r@) =~= texts(v@));
    r
}

/// What a detailed dependency declaration holds, as plain text.
pub struct DetailedDependencyView {
    pub version: Option<Seq<char>>,
    pub git: Option<Seq<char>>,
    pub branch: Option<Seq<char>>,
    pub tag: Option<Seq<char>>,
    pub rev: Option<Seq<char>>,
    pub path: Option<Seq<char>>,
    pub registry: Option<Seq<char>>,
}

/// A dependency declared as a table of optional keys.
#[derive(Debug)]
pub struct DetailedDependency {
    /// Version requirement
    pub version: Option<String>,
    /// Git repository URL
    pub git: Option<String>,
    /// Git branch
    pub branch: Option<String>,
    /// Git tag
    pub tag: Option<String>,
    /// Git revision
    pub rev: Option<String>,
    /// Local path
    pub path: Option<String>,
    /// Registry URL
    pub registry: Option<String>,
}

impl View for DetailedDependency {
    type V = DetailedDependencyView;

    open spec fn view(&self) -> DetailedDependencyView {
        DetailedDependencyView {
            version: text_opt(self.version),
            git: text_opt(self.git),
            branch: text_opt(self.branch),
            tag: text_opt(self.tag),
            rev: text_opt(self.rev),
            path: text_opt(self.path),
            registry: text_opt(self.registry),
        }
    }
}

impl Clone for DetailedDependency {
    fn clone(&self) -> (r: Self)
        ensures
            r@ == self@,
    {
        DetailedDependency {
            version: copy_opt(&self.version),
            git: copy_opt(&self.git),
            branch: copy_opt(&self.branch),
            tag: copy_opt(&self.tag),
            rev: copy_opt(&self.rev),
            path: copy_opt(&self.path),
            registry: copy_opt(&self.registry),
        }
    }
}

/// What a dependency declaration holds, as plain text.
pub enum DependencyView {
    Simple(Seq<char>),
    Detailed(DetailedDependencyView),
}

/// A dependency declaration: a bare version requirement, or a table.
#[derive(Debug)]
pub enum Dependency {
    /// Simple version string
    Simple(String),
    /// Detailed dependency specification
    Detailed(DetailedDependency),
}

impl View for Dependency {
    type V = DependencyView;

    open spec fn view(&self) -> DependencyView {
        match self {
            Dependency::Simple(v) => DependencyView::Simple(v@),
            Dependency::Detailed(d) => DependencyView::Detailed(d@),
        }
    }
}

impl Clone for Dependency {
    fn clone(&self) -> (r: Self)
        ensures
            r@ == self@,
    {
        match self {
            Dependency::Simple(v) => Dependency::Simple(v.clone()),
            Dependency::Detailed(d) => Dependency::Detailed(d.clone()),
        }
    }
}

/// A dependency table as plain values, in the order of its entries.
pub open spec fn table_view(t: NameMap<Dependency>) -> Seq<(Seq<char>, DependencyView)> {
    t.items().map_values(|e: (Seq<char>, Dependency)| (e.0, e.1@))
}

/// A copy of a dependency table.
pub fn copy_table(t: &NameMap<Dependency>) -> (r: NameMap<Dependency>)
    requires
        t.wf(),
    ensures
        r.wf(),
        table_view(r) == table_view(*t),
{
    let mut r: NameMap<Dependency> = NameMap::new();
    let mut i: usize = 0;
    while i < t.len()
        invariant
            t.wf(),
            r.wf(),
            i <= t.items().len(),
            r.items().len() == i,
            forall|j: int|
                0 <= j < i ==> r.items()[j].0 == t.items()[j].0 && r.items()[j].1@
                    == t.items()[j].1@,
        decreases t.items().len() - i,
    {
        match t.entry(i) {
            Some((name, dep)) => {
                proof {
                    if has_name(r.items(), name@) {
                        let j = crate::name_map::place_of(r.items(), name@);
                        assert(t.items()[j].0 != t.items()[i as int].0);
                    }
                }
                r.insert(name.clone(), dep.clone());
            },
            None => {},
        }
        i += 1;
    }
    assert(table_view(r) =~= table_view(*t));
    r
}

/// Build settings of a package.
#[derive(Debug, Clone, Copy, PartialEq, Eq, Structural)]
pub struct BuildConfig {
    /// Optimization level (0-3)
    pub opt_level: u8,
    /// Enable debug info
    pub debug: bool,
    /// Target address size (32 or 64)
    pub address_size: u8,
}

impl Default for BuildConfig {
    /// All settings zero and off, as a manifest made by [`Manifest::new`]
    /// carries them until its author sets them.
    fn default() -> (r: Self)
        ensures
            r == (BuildConfig { opt_level: 0, debug: false, address_size: 0 }),
    {
        BuildConfig { opt_level: 0, debug: false, address_size: 0 }
    }
}

/// What the package table of a manifest holds, as plain text.
pub struct PackageMetadataView {
    pub name: Seq<char>,
    pub version: Seq<char>,
    pub authors: Seq<Seq<char>>,
    pub description: Option<Seq<char>>,
    pub license: Option<Seq<char>>,
    pub repository: Option<Seq<char>>,
    pub homepage: Option<Seq<char>>,
    pub edition: Seq<char>,
}

/// The package table of a manifest.
#[derive(Debug)]
pub struct PackageMetadata {
    /// Package name
    pub name: String,
    /// Package version
    pub version: String,
    /// Package authors
    pub authors: Vec<String>,
    /// Package description
    pub description: Option<String>,
    /// Package license
    pub license: Option<String>,
    /// Repository URL
    pub repository: Option<String>,
    /// Homepage URL
    pub homepage: Option<String>,
    /// Package edition (e.g., "2024")
    pub edition: String,
}

impl View for PackageMetadata {
    type V = PackageMetadataView;

    open spec fn view(&self) -> PackageMetadataView {
        PackageMetadataView {
            name: self.name@,
            version: self.version@,
            authors: texts(self.authors@),
            description: text_opt(self.description),
            license: text_opt(self.license),
            repository: text_opt(self.repository),
            homepage: text_opt(self.homepage),
            edition: self.edition@,
        }
    }
}

impl Clone for PackageMetadata {
    fn clone(&self) -> (r: Self)
        ensures
            r@ == self@,
    {
        PackageMetadata {
            name: self.name.clone(),
            version: self.version.clone(),
            authors: copy_list(&self.authors),
            description: copy_opt(&self.description),
            license: copy_opt(&self.license),
            repository: copy_opt(&self.repository),
            homepage: copy_opt(&self.homepage),
            edition: self.edition.clone(),
        }
    }
}

/// What a manifest holds, as plain values.
pub struct ManifestView {
    pub package: PackageMetadataView,
    pub dependencies: Seq<(Seq<char>, DependencyView)>,
    pub dev_dependencies: Seq<(Seq<char>, DependencyView)>,
    pub build: BuildConfig,
}

/// A package manifest. The two dependency tables keep the order in which
/// their entries were declared.
#[derive(Debug)]
pub struct Manifest {
    /// Package metadata
    pub package: PackageMetadata,
    /// Dependencies
    pub dependencies: NameMap<Dependency>,
    /// Dev dependencies
    pub dev_dependencies: NameMap<Dependency>,
    /// Build configuration
    pub build: BuildConfig,
}

impl View for Manifest {
    type V = ManifestView;

    open spec fn view(&self) -> ManifestView {
        ManifestView {
            package: self.package@,
            dependencies: table_view(self.dependencies),
            dev_dependencies: table_view(self.dev_dependencies),
            build: self.build,
        }
    }
}

impl Manifest {
    /// Neither dependency table names a dependency twice.
    pub open spec fn wf(&self) -> bool {
        self.dependencies.wf() && self.dev_dependencies.wf()
    }

    /// A copy of the manifest.
    pub fn duplicate(&self) -> (r: Self)
        requires
            self.wf(),
        ensures
            r.wf(),
            r@ == self@,
    {
        Manifest {
            package: self.package.clone(),
            dependencies: copy_table(&self.dependencies),
            dev_dependencies: copy_table(&self.dev_dependencies),
            build: self.build,
        }
    }
}

/// The edition a manifest has when it names none.
pub fn default_edition() -> (r: String)
    ensures
        r@ == "2024"@,
{
    owned("2024")
}

/// The optimization level a manifest has when it names none.
pub fn default_opt_level() -> (r: u8)
    ensures
        r == 2,
{
    2
}

/// The address size a manifest has when it names none.
pub fn default_address_size() -> (r: u8)
    ensures
        r == 64,
{
    64
}

/// Whether `c` is a letter or a number in the sense of Unicode: what
/// `char::is_alphanumeric` answers for it.
pub uninterp spec fn alphanumeric(c: char) -> bool;

/// Wraps `char::is_alphanumeric`, which the standard library documents as
/// true exactly for the characters that are alphabetic or numeric by the
/// Unicode character database. The answer is given the name
/// [`alphanumeric`]; nothing more is claimed of it.
#[verifier::external_body]
pub(crate) fn is_alphanumeric(c: char) -> (r: bool)
    ensures
        r == alphanumeric(c),
{
    c.is_alphanumeric()
}

/// Whether `c` may stand in a package name.
pub open spec fn name_char(c: char) -> bool {
    alphanumeric(c) || c == '_' || c == '-'
}

/// Whether every character of `s` may stand in a package name.
pub open spec fn name_chars_only(s: Seq<char>) -> bool {
    forall|i: int| 0 <= i < s.len() ==> name_char(#[trigger] s[i])
}

/// Whether every character of `s` may stand in a package name.
pub fn has_name_chars_only(s: &str) -> (r: bool)
    ensures
        r == name_chars_only(s@),
{
    let n: usize = s.unicode_len();
    let mut i: usize = 0;
    while i < n
        invariant
            n == s@.len(),
            i <= n,
            forall|j: int| 0 <= j < i ==> name_char(#[trigger] s@[j]),
        decreases n - i,
    {
        let c: char = s.get_char(i);
        if !(is_alphanumeric(c) || c == '_' || c == '-') {
            return false;
        }
        i += 1;
    }
    true
}

/// Whether `s` is a version: three numbers, each fitting 32 bits without
/// sign, with a dot between them.
pub open spec fn version_text(s: Seq<char>) -> bool {
    let parts = split_text(s, '.');
    parts.len() == 3 && is_u32_text(parts[0]) && is_u32_text(parts[1]) && is_u32_text(parts[2])
}

/// Whether `version` is a version: three numbers with a dot between them.
pub fn is_valid_version(version: &str) -> (r: bool)
    ensures
        r == version_text(version@),
{
    let parts = split_on(version, '.');
    if parts.len() != 3 {
        return false;
    }
    assert(texts(parts@)[0] == parts@[0]@);
    assert(texts(parts@)[1] == parts@[1]@);
    assert(texts(parts@)[2] == parts@[2]@);
    parses_as_u32(parts[0].as_str()) && parses_as_u32(parts[1].as_str()) && parses_as_u32(
        parts[2].as_str(),
    )
}

/// Why a manifest is refused.
#[derive(Debug, Clone, Copy, PartialEq, Eq, Structural)]
pub enum ManifestError {
    /// The package name is empty.
    EmptyName,
    /// The package name holds a character other than letters, numbers,
    /// underscores and hyphens.
    InvalidName,
    /// The package version is not three numbers with dots between them.
    InvalidVersion,
    /// The edition is not a supported one.
    UnsupportedEdition,
    /// The optimization level is above 3.
    InvalidOptLevel,
    /// The address size is neither 32 nor 64.
    InvalidAddressSize,
    /// The text is no TOML document.
    Syntax,
    /// The document is no manifest.
    Shape,
    /// The TOML library refused to write the document.
    Unwritable,
    /// There is no manifest file.
    NotFound,
}

/// What [`Manifest::validate`] answers: the first rule that the manifest
/// breaks, in the order in which the rules are listed here.
pub open spec fn validation(m: ManifestView) -> Result<(), ManifestError> {
    if m.package.name.len() == 0 {
        Err(ManifestError::EmptyName)
    } else if !name_chars_only(m.package.name) {
        Err(ManifestError::InvalidName)
    } else if !version_text(m.package.version) {
        Err(ManifestError::InvalidVersion)
    } else if m.package.edition != "2024"@ {
        Err(ManifestError::UnsupportedEdition)
    } else if m.build.opt_level > 3 {
        Err(ManifestError::InvalidOptLevel)
    } else if m.build.address_size != 32 && m.build.address_size != 64 {
        Err(ManifestError::InvalidAddressSize)
    } else {
        Ok(())
    }
}

/// The dependency that `name` stands for when both tables are taken
/// together: that of the development table where it has one.
pub open spec fn merged_dependency(m: Manifest, name: Seq<char>) -> Dependency {
    if m.dev_dependencies@.contains_key(name) {
        m.dev_dependencies@[name]
    } else {
        m.dependencies@[name]
    }
}

impl Manifest {
    /// A manifest for a new package called `name`: version 0.1.0, edition
    /// 2024, no dependency, and build settings as [`BuildConfig::default`]
    /// gives them.
    pub fn new(name: String) -> (r: Self)
        ensures
            r.wf(),
            r@.package == (PackageMetadataView {
                name: name@,
                version: "0.1.0"@,
                authors: Seq::<Seq<char>>::empty(),
                description: None,
                license: None,
                repository: None,
                homepage: None,
                edition: "2024"@,
            }),
            r@.dependencies == Seq::<(Seq<char>, DependencyView)>::empty(),
            r@.dev_dependencies == Seq::<(Seq<char>, DependencyView)>::empty(),
            r.dependencies.items().len() == 0,
            r.dev_dependencies.items().len() == 0,
            r@.build == (BuildConfig { opt_level: 0, debug: false, address_size: 0 }),
    {
        let r = Manifest {
            package: PackageMetadata {
                name,
                version: owned("0.1.0"),
                authors: Vec::new(),
                description: None,
                license: None,
                repository: None,
                homepage: None,
                edition: owned("2024"),
            },
            dependencies: NameMap::new(),
            dev_dependencies: NameMap::new(),
            build: BuildConfig::default(),
        };
        assert(r@.package.authors =~= Seq::<Seq<char>>::empty());
        assert(r@.dependencies =~= Seq::<(Seq<char>, DependencyView)>::empty());
        assert(r@.dev_dependencies =~= Seq::<(Seq<char>, DependencyView)>::empty());
        r
    }

    /// Checks the rules that a manifest has to meet, and names the first
    /// one that is broken.
    pub fn validate(&self) -> (r: Result<(), ManifestError>)
        ensures
            r == validation(self@),
    {
        if self.package.name.as_str().unicode_len() == 0 {
            return Err(ManifestError::EmptyName);
        }
        if !has_name_chars_only(self.package.name.as_str()) {
            return Err(ManifestError::InvalidName);
        }
        if !is_valid_version(self.package.version.as_str()) {
            return Err(ManifestError::InvalidVersion);
        }
        if !same_text(self.package.edition.as_str(), "2024") {
            return Err(ManifestError::UnsupportedEdition);
        }
        if self.build.opt_level > 3 {
            return Err(ManifestError::InvalidOptLevel);
        }
        if self.build.address_size != 32 && self.build.address_size != 64 {
            return Err(ManifestError::InvalidAddressSize);
        }
        Ok(())
    }

    /// Both dependency tables as one. A name that both tables declare
    /// stands for its development dependency, at the place where the first
    /// table has it.
    pub fn all_dependencies(&self) -> (r: NameMap<&Dependency>)
        requires
            self.wf(),
        ensures
            r.wf(),
            forall|name: Seq<char>|
                #[trigger] r@.contains_key(name) <==> (self.dependencies@.contains_key(name)
                    || self.dev_dependencies@.contains_key(name)),
            forall|name: Seq<char>|
                r@.contains_key(name) ==> *(#[trigger] r@[name]) == merged_dependency(*self, name),
    {
        let mut r: NameMap<&Dependency> = NameMap::new();
        let ghost deps = self.dependencies.items();
        let ghost devs = self.dev_dependencies.items();
        let mut i: usize = 0;
        assert(deps.subrange(0, 0) =~= Seq::<(Seq<char>, Dependency)>::empty());
        while i < self.dependencies.len()
            invariant
                self.wf(),
                r.wf(),
                deps == self.dependencies.items(),
                i <= deps.len(),
                forall|name: Seq<char>|
                    #[trigger] r@.contains_key(name) <==> has_name(deps.subrange(0, i as int), name),
                forall|name: Seq<char>|
                    r@.contains_key(name) ==> *(#[trigger] r@[name]) == self.dependencies@[name],
            decreases deps.len() - i,
        {
            match self.dependencies.entry(i) {
                Some((name, dep)) => {
                    proof {
                        lemma_items_map_at(deps, i as int);
                        assert forall|k: Seq<char>|
                            #[trigger] has_name(deps.subrange(0, i + 1), k) <==> (has_name(
                                deps.subrange(0, i as int),
                                k,
                            ) || deps[i as int].0 == k) by {
                            lemma_has_name_step(deps, i as int, k);
                        }
                    }
                    let ghost before = r@;
                    r.insert(name.clone(), dep);
                    assert forall|k: Seq<char>|
                        #[trigger] r@.contains_key(k) <==> has_name(deps.subrange(0, i + 1), k) by {
                        assert(r@.contains_key(k) <==> (before.contains_key(k) || k
                            == deps[i as int].0));
                    }
                },
                None => {},
            }
            i += 1;
        }
        assert(deps.subrange(0, deps.len() as int) =~= deps);
        let mut j: usize = 0;
        assert(devs.subrange(0, 0) =~= Seq::<(Seq<char>, Dependency)>::empty());
        while j < self.dev_dependencies.len()
            invariant
                self.wf(),
                r.wf(),
                deps == self.dependencies.items(),
                devs == self.dev_dependencies.items(),
                j <= devs.len(),
                forall|name: Seq<char>|
                    #[trigger] r@.contains_key(name) <==> (has_name(deps, name) || has_name(
                        devs.subrange(0, j as int),
                        name,
                    )),
                forall|name: Seq<char>|
                    r@.contains_key(name) ==> *(#[trigger] r@[name]) == (if has_name(
                        devs.subrange(0, j as int),
                        name,
                    ) {
                        self.dev_dependencies@[name]
                    } else {
                        self.dependencies@[name]
                    }),
            decreases devs.len() - j,
        {
            match self.dev_dependencies.entry(j) {
                Some((name, dep)) => {
                    proof {
                        lemma_items_map_at(devs, j as int);
                        assert forall|k: Seq<char>|
                            #[trigger] has_name(devs.subrange(0, j + 1), k) <==> (has_name(
                                devs.subrange(0, j as int),
                                k,
                            ) || devs[j as int].0 == k) by {
                            lemma_has_name_step(devs, j as int, k);
                        }
                    }
                    let ghost before = r@;
                    r.insert(name.clone(), dep);
                    assert forall|k: Seq<char>|
                        #[trigger] r@.contains_key(k) <==> (has_name(deps, k) || has_name(
                            devs.subrange(0, j + 1),
                            k,
                        )) by {
                        assert(r@.contains_key(k) <==> (before.contains_key(k) || k
                            == devs[j as int].0));
                    }
                    assert forall|k: Seq<char>| r@.contains_key(k) implies *(#[trigger] r@[k])
                        == (if has_name(devs.subrange(0, j + 1), k) {
                        self.dev_dependencies@[k]
                    } else {
                        self.dependencies@[k]
                    }) by {
                        lemma_has_name_step(devs, j as int, k);
                        if k != devs[j as int].0 {
                            assert(before.contains_key(k));
                            assert(r@[k] == before[k]);
                        }
                    }
                },
                None => {},
            }
            j += 1;
        }
        assert(devs.subrange(0, devs.len() as int) =~= devs);
        r
    }
}

} // verus!
