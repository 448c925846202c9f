//! The manifest as a TOML document: how a document is read as a manifest
//! and how a manifest is written.

use vstd::prelude::*;
use vstd::string::*;
use crate::document::{
    empty_table, optional_text_fits, parse, parsed, read_optional_text, read_text, render,
    rendered, table_get, table_insert_flag, table_insert_integer, table_insert_list,
    table_insert_table, table_insert_text, table_keys, table_new, table_nodes, take_apart,
    text_node, value_node, value_nodes, value_text, Item, Node,
};
use crate::manifest::{
    default_address_size, default_edition, default_opt_level, text_opt, validation, BuildConfig, Dependency, DependencyView, DetailedDependency,
    DetailedDependencyView, Manifest, ManifestError, ManifestView, PackageMetadata,
    PackageMetadataView,
};
use crate::name_map::{has_name, lemma_has_name_step, lemma_items_map_at, place_of, NameMap};
use crate::package::Package;
use crate::text::{owned, texts};

verus! {

/// The texts that a node lists: it is an array that holds only strings.
pub open spec fn text_list_of(node: Node) -> Option<Seq<Seq<char>>> {
    match node {
        Node::List(items) => {
            if forall|i: int| 0 <= i < items.len() ==> (#[trigger] items[i]) is Text {
                Some(Seq::new(items.len(), |i: int| items[i]->Text_0))
            } else {
                None
            }
        },
        _ => None,
    }
}

/// The small number under `key`: `default` where the key is absent, the
/// integer where it lies between 0 and 255, and nothing else.
pub open spec fn small_number_at(nodes: Map<Seq<char>, Node>, key: Seq<char>, default: u8) -> Option<
    u8,
> {
    if !nodes.contains_key(key) {
        Some(default)
    } else {
        match nodes[key] {
            Node::Integer(n) => if 0 <= n <= 255 {
                Some(n as u8)
            } else {
                None
            },
            _ => None,
        }
    }
}

/// The boolean under `key`: `default` where the key is absent.
pub open spec fn flag_at(nodes: Map<Seq<char>, Node>, key: Seq<char>, default: bool) -> Option<
    bool,
> {
    if !nodes.contains_key(key) {
        Some(default)
    } else {
        match nodes[key] {
            Node::Flag(b) => Some(b),
            _ => None,
        }
    }
}

/// The build settings that a manifest document holds. Without a `build`
/// table they are those of [`BuildConfig::default`]; in a `build` table
/// `opt_level` stands for 2, `debug` for off and `address_size` for 64
/// where they are absent.
pub open spec fn build_of(nodes: Map<Seq<char>, Node>) -> Option<BuildConfig> {
    if !nodes.contains_key("build"@) {
        Some(BuildConfig { opt_level: 0, debug: false, address_size: 0 })
    } else {
        match nodes["build"@] {
            Node::Table(b) => {
                let opt_level = small_number_at(b, "opt_level"@, 2);
                let debug = flag_at(b, "debug"@, false);
                let address_size = small_number_at(b, "address_size"@, 64);
                if opt_level is Some && debug is Some && address_size is Some {
                    Some(
                        BuildConfig {
                            opt_level: opt_level->0,
                            debug: debug->0,
                            address_size: address_size->0,
                        },
                    )
                } else {
                    None
                }
            },
            _ => None,
        }
    }
}

/// The authors that a package table lists: none where the key is absent.
pub open spec fn authors_of(p: Map<Seq<char>, Node>) -> Option<Seq<Seq<char>>> {
    if !p.contains_key("authors"@) {
        Some(Seq::<Seq<char>>::empty())
    } else {
        text_list_of(p["authors"@])
    }
}

/// The package table that a node stands for: a table with the strings
/// `name` and `version`, in which `authors` is an array of strings and
/// `description`, `license`, `repository`, `homepage` and `edition` are
/// strings where they are present. An absent `edition` stands for 2024.
pub open spec fn package_of(node: Node) -> Option<PackageMetadataView> {
    match node {
        Node::Table(p) => {
            if text_node(p, "name"@) is Some && text_node(p, "version"@) is Some && authors_of(
                p,
            ) is Some && optional_text_fits(p, "description"@) && optional_text_fits(
                p,
                "license"@,
            ) && optional_text_fits(p, "repository"@) && optional_text_fits(p, "homepage"@)
                && optional_text_fits(p, "edition"@) {
                Some(
                    PackageMetadataView {
                        name: text_node(p, "name"@)->0,
                        version: text_node(p, "version"@)->0,
                        authors: authors_of(p)->0,
                        description: text_node(p, "description"@),
                        license: text_node(p, "license"@),
                        repository: text_node(p, "repository"@),
                        homepage: text_node(p, "homepage"@),
                        edition: match text_node(p, "edition"@) {
                            Some(e) => e,
                            None => "2024"@,
                        },
                    },
                )
            } else {
                None
            }
        },
        _ => None,
    }
}

/// The declaration that a node stands for: a string is a bare version; a
/// table is a detailed declaration, in which each of the seven keys is a
/// string where it is present.
pub open spec fn dependency_of(node: Node) -> Option<DependencyView> {
    match node {
        Node::Text(version) => Some(DependencyView::Simple(version)),
        Node::Table(t) => {
            if optional_text_fits(t, "version"@) && optional_text_fits(t, "git"@)
                && optional_text_fits(t, "branch"@) && optional_text_fits(t, "tag"@)
                && optional_text_fits(t, "rev"@) && optional_text_fits(t, "path"@)
                && optional_text_fits(t, "registry"@) {
                Some(
                    DependencyView::Detailed(
                        DetailedDependencyView {
                            version: text_node(t, "version"@),
                            git: text_node(t, "git"@),
                            branch: text_node(t, "branch"@),
                            tag: text_node(t, "tag"@),
                            rev: text_node(t, "rev"@),
                            path: text_node(t, "path"@),
                            registry: text_node(t, "registry"@),
                        },
                    ),
                )
            } else {
                None
            }
        },
        _ => None,
    }
}

/// The declarations of a table of dependencies, by name.
pub open spec fn declarations_of(d: Map<Seq<char>, Node>) -> Option<Map<Seq<char>, DependencyView>> {
    if forall|name: Seq<char>| d.contains_key(name) ==> (#[trigger] dependency_of(d[name])) is Some {
        Some(
            Map::new(
                |name: Seq<char>| d.contains_key(name),
                |name: Seq<char>| dependency_of(d[name])->0,
            ),
        )
    } else {
        None
    }
}

/// The dependency table under `key`: empty where the key is absent.
pub open spec fn dependencies_at(nodes: Map<Seq<char>, Node>, key: Seq<char>) -> Option<
    Map<Seq<char>, DependencyView>,
> {
    if !nodes.contains_key(key) {
        Some(Map::<Seq<char>, DependencyView>::empty())
    } else {
        match nodes[key] {
            Node::Table(d) => declarations_of(d),
            _ => None,
        }
    }
}

/// What a manifest document holds; the dependency tables by name.
pub struct ManifestContent {
    pub package: PackageMetadataView,
    pub dependencies: Map<Seq<char>, DependencyView>,
    pub dev_dependencies: Map<Seq<char>, DependencyView>,
    pub build: BuildConfig,
}

/// The views of the declarations of a dependency table, by name.
pub open spec fn declarations(t: NameMap<Dependency>) -> Map<Seq<char>, DependencyView> {
    Map::new(|name: Seq<char>| t@.contains_key(name), |name: Seq<char>| t@[name]@)
}

/// What a manifest holds, the dependency tables by name.
pub open spec fn content(m: Manifest) -> ManifestContent {
    ManifestContent {
        package: m@.package,
        dependencies: declarations(m.dependencies),
        dev_dependencies: declarations(m.dev_dependencies),
        build: m@.build,
    }
}

/// The manifest that a document stands for: it has a `package` table, and
/// its tables `dependencies`, `dev-dependencies` and `build` fit where
/// they are present. Other keys are passed over.
pub open spec fn manifest_of(nodes: Map<Seq<char>, Node>) -> Option<ManifestContent> {
    if nodes.contains_key("package"@) && package_of(nodes["package"@]) is Some && dependencies_at(
        nodes,
        "dependencies"@,
    ) is Some && dependencies_at(nodes, "dev-dependencies"@) is Some && build_of(nodes) is Some {
        Some(
            ManifestContent {
                package: package_of(nodes["package"@])->0,
                dependencies: dependencies_at(nodes, "dependencies"@)->0,
                dev_dependencies: dependencies_at(nodes, "dev-dependencies"@)->0,
                build: build_of(nodes)->0,
            },
        )
    } else {
        None
    }
}

/// What reading a manifest from a text gives: the text has to be a TOML
/// document, the document a manifest, and the manifest has to meet the
/// rules of [`validation`].
pub open spec fn reading(text: Seq<char>) -> Result<ManifestContent, ManifestError> {
    match parsed(text) {
        None => Err(ManifestError::Syntax),
        Some(nodes) => match manifest_of(nodes) {
            None => Err(ManifestError::Shape),
            Some(c) => match validation(
                ManifestView {
                    package: c.package,
                    dependencies: Seq::empty(),
                    dev_dependencies: Seq::empty(),
                    build: c.build,
                },
            ) {
                Err(e) => Err(e),
                Ok(_) => Ok(c),
            },
        },
    }
}

/// The small number under `key`.
fn read_small_number(t: &toml::Table, key: &str, default: u8) -> (r: Option<u8>)
    ensures
        r == small_number_at(table_nodes(*t), key@, default),
{
    match table_get(t, key) {
        None => Some(default),
        Some(v) => match take_apart(v) {
            Item::Integer(n) => {
                if 0 <= n && n <= 255 {
                    Some(n as u8)
                } else {
                    None
                }
            },
            _ => None,
        },
    }
}

/// The boolean under `key`.
fn read_flag(t: &toml::Table, key: &str, default: bool) -> (r: Option<bool>)
    ensures
        r == flag_at(table_nodes(*t), key@, default),
{
    match table_get(t, key) {
        None => Some(default),
        Some(v) => match take_apart(v) {
            Item::Flag(b) => Some(b),
            _ => None,
        },
    }
}

/// The build settings that a manifest document holds.
pub fn read_build(t: &toml::Table) -> (r: Option<BuildConfig>)
    ensures
        r == build_of(table_nodes(*t)),
{
    match table_get(t, "build") {
        None => Some(BuildConfig::default()),
        Some(v) => match take_apart(v) {
            Item::Table(b) => {
                let opt_level = match read_small_number(&b, "opt_level", default_opt_level()) {
                    Some(n) => n,
                    None => {
                        return None;
                    },
                };
                let debug = match read_flag(&b, "debug", false) {
                    Some(f) => f,
                    None => {
                        return None;
                    },
                };
                let address_size = match read_small_number(&b, "address_size", default_address_size()) {
                    Some(n) => n,
                    None => {
                        return None;
                    },
                };
                Some(BuildConfig { opt_level, debug, address_size })
            },
            _ => None,
        },
    }
}

/// The view of an optional list of texts.
pub open spec fn texts_opt(o: Option<Vec<String>>) -> Option<Seq<Seq<char>>> {
    match o {
        Some(v) => Some(texts(v@)),
        None => None,
    }
}

/// The texts that a list of values holds, if it holds only strings.
fn read_text_list(values: Vec<toml::Value>) -> (r: Option<Vec<String>>)
    ensures
        texts_opt(r) == text_list_of(Node::List(value_nodes(values@))),
{
    let ghost items = value_nodes(values@);
    let mut rest = values;
    let mut r: Vec<String> = Vec::new();
    // the values are taken from the end, so the texts come out backwards
    while rest.len() > 0
        invariant
            items == value_nodes(values@),
            rest@.len() <= items.len(),
            value_nodes(rest@) == items.subrange(0, rest@.len() as int),
            r@.len() == items.len() - rest@.len(),
            forall|j: int|
                rest@.len() <= j < items.len() ==> (#[trigger] items[j]) == Node::Text(
                    r@[items.len() - 1 - j]@,
                ),
        decreases rest@.len(),
    {
        let ghost k = rest@.len() - 1;
        let ghost before = rest@;
        let ghost had = r@;
        let v = match rest.pop() {
            Some(v) => v,
            None => {
                return None;
            },
        };
        assert(value_nodes(before)[k] == value_node(v));
        assert(value_nodes(rest@) =~= items.subrange(0, k));
        match take_apart(v) {
            Item::Text(s) => {
                r.push(s);
                assert forall|j: int| k <= j < items.len() implies (#[trigger] items[j])
                    == Node::Text(r@[items.len() - 1 - j]@) by {
                    if j > k {
                        assert(r@[items.len() - 1 - j] == had[items.len() - 1 - j]);
                    }
                }
            },
            _ => {
                assert(!(items[k] is Text));
                assert(text_list_of(Node::List(items)) is None);
                return None;
            },
        }
    }
    let mut out: Vec<String> = Vec::new();
    let n: usize = r.len();
    let mut i: usize = 0;
    while i < n
        invariant
            n == r@.len(),
            n == items.len(),
            i <= n,
            out@.len() == i,
            forall|j: int| 0 <= j < i ==> (#[trigger] out@[j]) == r@[n - 1 - j],
        decreases n - i,
    {
        out.push(r[n - 1 - i].clone());
        i += 1;
    }
    proof {
        assert forall|j: int| 0 <= j < items.len() implies (#[trigger] items[j]) is Text by {}
        assert(texts(out@) =~= Seq::new(items.len(), |j: int| items[j]->Text_0)) by {
            assert forall|j: int| 0 <= j < items.len() implies texts(out@)[j]
                == items[j]->Text_0 by {
                assert(out@[j] == r@[n - 1 - j]);
                assert(items[j] == Node::Text(r@[items.len() - 1 - j]@));
            }
        }
    }
    Some(out)
}

/// The authors that a package table lists.
fn read_authors(p: &toml::Table) -> (r: Option<Vec<String>>)
    ensures
        texts_opt(r) == authors_of(table_nodes(*p)),
{
    match table_get(p, "authors") {
        None => Some(Vec::new()),
        Some(v) => match take_apart(v) {
            Item::List(values) => read_text_list(values),
            _ => None,
        },
    }
}

/// The view of an optional package table.
pub open spec fn package_opt(o: Option<PackageMetadata>) -> Option<PackageMetadataView> {
    match o {
        Some(p) => Some(p@),
        None => None,
    }
}

/// The package table that a value stands for.
pub fn read_package(v: toml::Value) -> (r: Option<PackageMetadata>)
    ensures
        package_opt(r) == package_of(value_node(v)),
{
    match take_apart(v) {
        Item::Table(p) => {
            let name = match read_text(&p, "name") {
                Some(s) => s,
                None => {
                    return None;
                },
            };
            let version = match read_text(&p, "version") {
                Some(s) => s,
                None => {
                    return None;
                },
            };
            let authors = match read_authors(&p) {
                Some(a) => a,
                None => {
                    return None;
                },
            };
            let description = match read_optional_text(&p, "description") {
                Some(o) => o,
                None => {
                    return None;
                },
            };
            let license = match read_optional_text(&p, "license") {
                Some(o) => o,
                None => {
                    return None;
                },
            };
            let repository = match read_optional_text(&p, "repository") {
                Some(o) => o,
                None => {
                    return None;
                },
            };
            let homepage = match read_optional_text(&p, "homepage") {
                Some(o) => o,
                None => {
                    return None;
                },
            };
            let edition = match read_optional_text(&p, "edition") {
                Some(Some(e)) => e,
                Some(None) => default_edition(),
                None => {
                    return None;
                },
            };
            Some(
                PackageMetadata {
                    name,
                    version,
                    authors,
                    description,
                    license,
                    repository,
                    homepage,
                    edition,
                },
            )
        },
        _ => None,
    }
}

/// The view of an optional declaration.
pub open spec fn dependency_opt(o: Option<Dependency>) -> Option<DependencyView> {
    match o {
        Some(d) => Some(d@),
        None => None,
    }
}

/// The declaration that a value stands for.
pub fn read_dependency(v: toml::Value) -> (r: Option<Dependency>)
    ensures
        dependency_opt(r) == dependency_of(value_node(v)),
{
    match take_apart(v) {
        Item::Text(version) => Some(Dependency::Simple(version)),
        Item::Table(t) => {
            let version = match read_optional_text(&t, "version") {
                Some(o) => o,
                None => {
                    return None;
                },
            };
            let git = match read_optional_text(&t, "git") {
                Some(o) => o,
                None => {
                    return None;
                },
            };
            let branch = match read_optional_text(&t, "branch") {
                Some(o) => o,
                None => {
                    return None;
                },
            };
            let tag = match read_optional_text(&t, "tag") {
                Some(o) => o,
                None => {
                    return None;
                },
            };
            let rev = match read_optional_text(&t, "rev") {
                Some(o) => o,
                None => {
                    return None;
                },
            };
            let path = match read_optional_text(&t, "path") {
                Some(o) => o,
                None => {
                    return None;
                },
            };
            let registry = match read_optional_text(&t, "registry") {
                Some(o) => o,
                None => {
                    return None;
                },
            };
            Some(
                Dependency::Detailed(
                    DetailedDependency { version, git, branch, tag, rev, path, registry },
                ),
            )
        },
        _ => None,
    }
}

/// The declarations of an optional dependency table.
pub open spec fn declarations_opt(o: Option<NameMap<Dependency>>) -> Option<
    Map<Seq<char>, DependencyView>,
> {
    match o {
        Some(t) => Some(declarations(t)),
        None => None,
    }
}

/// The declarations of a table of dependencies.
fn read_declarations(d: &toml::Table) -> (r: Option<NameMap<Dependency>>)
    ensures
        declarations_opt(r) == declarations_of(table_nodes(*d)),
        r is Some ==> r->0.wf(),
{
    let ghost dn = table_nodes(*d);
    let keys = table_keys(d);
    let mut deps: NameMap<Dependency> = NameMap::new();
    let mut i: usize = 0;
    while i < keys.len()
        invariant
            dn == table_nodes(*d),
            texts(keys@).no_duplicates(),
            texts(keys@).to_set() == dn.dom(),
            i <= keys@.len(),
            deps.wf(),
            deps.items().len() == i,
            forall|j: int| 0 <= j < i ==> (#[trigger] deps.items()[j]).0 == keys@[j]@,
            forall|j: int|
                0 <= j < i ==> dependency_of(dn[keys@[j]@]) == Some(
                    (#[trigger] deps.items()[j]).1@,
                ),
        decreases keys@.len() - i,
    {
        let key = &keys[i];
        proof {
            assert(texts(keys@)[i as int] == key@);
            assert(texts(keys@).contains(key@));
            assert(texts(keys@).to_set().contains(key@));
            assert(dn.contains_key(key@));
        }
        let entry = match table_get(d, key.as_str()) {
            Some(v) => read_dependency(v),
            None => None,
        };
        let ghost before = deps.items();
        match entry {
            Some(e) => {
                proof {
                    if has_name(deps.items(), key@) {
                        let p = place_of(deps.items(), key@);
                        assert(texts(keys@)[p] == texts(keys@)[i as int]);
                    }
                }
                deps.insert(key.clone(), e);
                assert(deps.items() == before.push((key@, e)));
            },
            None => {
                assert(dependency_of(dn[key@]) is None);
                return None;
            },
        }
        assert forall|j: int| 0 <= j < i + 1 implies dependency_of(dn[keys@[j]@]) == Some(
            (#[trigger] deps.items()[j]).1@,
        ) by {
            if j < i {
                assert(deps.items()[j] == before[j]);
            }
        }
        i += 1;
    }
    proof {
        let items = deps.items();
        assert forall|name: Seq<char>| dn.contains_key(name) implies has_name(items, name) && (
        #[trigger] dependency_of(dn[name])) == Some(deps@[name]@) by {
            assert(texts(keys@).to_set().contains(name));
            assert(texts(keys@).contains(name));
            let j = choose|j: int| 0 <= j < texts(keys@).len() && texts(keys@)[j] == name;
            assert(items[j].0 == name);
            lemma_items_map_at(items, j);
        }
        assert forall|name: Seq<char>| has_name(items, name) implies dn.contains_key(name) by {
            let j = place_of(items, name);
            assert(texts(keys@)[j] == name);
            assert(texts(keys@).contains(name));
            assert(texts(keys@).to_set().contains(name));
        }
        let want = declarations_of(dn);
        assert(want is Some);
        assert forall|name: Seq<char>|
            want->0.contains_key(name) <==> declarations(deps).contains_key(name) by {
            if dn.contains_key(name) {
                assert(dependency_of(dn[name]) == Some(deps@[name]@));
                assert(has_name(items, name));
            }
        }
        assert forall|name: Seq<char>| want->0.contains_key(name) implies want->0[name]
            == declarations(deps)[name] by {
            assert(dependency_of(dn[name]) == Some(deps@[name]@));
        }
        assert(want->0 =~= declarations(deps));
    }
    Some(deps)
}

/// The dependency table under `key`.
fn read_dependencies(t: &toml::Table, key: &str) -> (r: Option<NameMap<Dependency>>)
    ensures
        declarations_opt(r) == dependencies_at(table_nodes(*t), key@),
        r is Some ==> r->0.wf(),
{
    match table_get(t, key) {
        None => {
            let r: NameMap<Dependency> = NameMap::new();
            assert(declarations(r) =~= Map::<Seq<char>, DependencyView>::empty());
            Some(r)
        },
        Some(v) => match take_apart(v) {
            Item::Table(d) => read_declarations(&d),
            _ => None,
        },
    }
}

/// A table with the text `o` under `key` where there is one.
pub open spec fn with_optional(
    nodes: Map<Seq<char>, Node>,
    key: Seq<char>,
    o: Option<Seq<char>>,
) -> Map<Seq<char>, Node> {
    match o {
        Some(s) => nodes.insert(key, Node::Text(s)),
        None => nodes,
    }
}

/// The strings that stand for a list of texts.
pub open spec fn text_nodes(list: Seq<Seq<char>>) -> Seq<Node> {
    list.map_values(|s: Seq<char>| Node::Text(s))
}

/// The table that stands for the package table of a manifest: the fields
/// that are set, and the authors also where there is none.
pub open spec fn package_nodes(p: PackageMetadataView) -> Map<Seq<char>, Node> {
    let base = empty_table().insert("name"@, Node::Text(p.name)).insert(
        "version"@,
        Node::Text(p.version),
    ).insert("authors"@, Node::List(text_nodes(p.authors)));
    let a = with_optional(base, "description"@, p.description);
    let b = with_optional(a, "license"@, p.license);
    let c = with_optional(b, "repository"@, p.repository);
    let d = with_optional(c, "homepage"@, p.homepage);
    d.insert("edition"@, Node::Text(p.edition))
}

/// The table that stands for a detailed declaration: the keys that are
/// set.
pub open spec fn detailed_nodes(t: DetailedDependencyView) -> Map<Seq<char>, Node> {
    let a = with_optional(empty_table(), "version"@, t.version);
    let b = with_optional(a, "git"@, t.git);
    let c = with_optional(b, "branch"@, t.branch);
    let d = with_optional(c, "tag"@, t.tag);
    let e = with_optional(d, "rev"@, t.rev);
    let f = with_optional(e, "path"@, t.path);
    with_optional(f, "registry"@, t.registry)
}

/// The table of a dependency table: under each name a string for a bare
/// version and a table for a detailed declaration.
pub open spec fn declaration_nodes(deps: Map<Seq<char>, DependencyView>) -> Map<Seq<char>, Node> {
    Map::new(
        |name: Seq<char>| deps.contains_key(name),
        |name: Seq<char>|
            match deps[name] {
                DependencyView::Simple(version) => Node::Text(version),
                DependencyView::Detailed(t) => Node::Table(detailed_nodes(t)),
            },
    )
}

/// The table that stands for the build settings.
pub open spec fn build_nodes(b: BuildConfig) -> Map<Seq<char>, Node> {
    empty_table().insert("opt_level"@, Node::Integer(b.opt_level as i64)).insert(
        "debug"@,
        Node::Flag(b.debug),
    ).insert("address_size"@, Node::Integer(b.address_size as i64))
}

/// The document that stands for a manifest: the tables `package`,
/// `dependencies`, `dev-dependencies` and `build`.
pub open spec fn manifest_nodes(c: ManifestContent) -> Map<Seq<char>, Node> {
    empty_table().insert("package"@, Node::Table(package_nodes(c.package))).insert(
        "dependencies"@,
        Node::Table(declaration_nodes(c.dependencies)),
    ).insert("dev-dependencies"@, Node::Table(declaration_nodes(c.dev_dependencies))).insert(
        "build"@,
        Node::Table(build_nodes(c.build)),
    )
}

/// The keys of a manifest document differ from one another, table by
/// table.
pub proof fn lemma_manifest_keys_differ()
    ensures
        "package"@ != "dependencies"@,
        "package"@ != "dev-dependencies"@,
        "package"@ != "build"@,
        "dependencies"@ != "dev-dependencies"@,
        "dependencies"@ != "build"@,
        "dev-dependencies"@ != "build"@,
        "opt_level"@ != "debug"@,
        "opt_level"@ != "address_size"@,
        "debug"@ != "address_size"@,
        "name"@ != "version"@,
        "name"@ != "authors"@,
        "name"@ != "description"@,
        "name"@ != "license"@,
        "name"@ != "repository"@,
        "name"@ != "homepage"@,
        "name"@ != "edition"@,
        "version"@ != "authors"@,
        "version"@ != "description"@,
        "version"@ != "license"@,
        "version"@ != "repository"@,
        "version"@ != "homepage"@,
        "version"@ != "edition"@,
        "authors"@ != "description"@,
        "authors"@ != "license"@,
        "authors"@ != "repository"@,
        "authors"@ != "homepage"@,
        "authors"@ != "edition"@,
        "description"@ != "license"@,
        "description"@ != "repository"@,
        "description"@ != "homepage"@,
        "description"@ != "edition"@,
        "license"@ != "repository"@,
        "license"@ != "homepage"@,
        "license"@ != "edition"@,
        "repository"@ != "homepage"@,
        "repository"@ != "edition"@,
        "homepage"@ != "edition"@,
        "version"@ != "git"@,
        "version"@ != "branch"@,
        "version"@ != "tag"@,
        "version"@ != "rev"@,
        "version"@ != "path"@,
        "version"@ != "registry"@,
        "git"@ != "branch"@,
        "git"@ != "tag"@,
        "git"@ != "rev"@,
        "git"@ != "path"@,
        "git"@ != "registry"@,
        "branch"@ != "tag"@,
        "branch"@ != "rev"@,
        "branch"@ != "path"@,
        "branch"@ != "registry"@,
        "tag"@ != "rev"@,
        "tag"@ != "path"@,
        "tag"@ != "registry"@,
        "rev"@ != "path"@,
        "rev"@ != "registry"@,
        "path"@ != "registry"@,
{
    reveal_strlit("package");
    reveal_strlit("dependencies");
    reveal_strlit("dev-dependencies");
    reveal_strlit("build");
    reveal_strlit("opt_level");
    reveal_strlit("debug");
    reveal_strlit("address_size");
    reveal_strlit("name");
    reveal_strlit("version");
    reveal_strlit("authors");
    reveal_strlit("description");
    reveal_strlit("license");
    reveal_strlit("repository");
    reveal_strlit("homepage");
    reveal_strlit("edition");
    reveal_strlit("git");
    reveal_strlit("branch");
    reveal_strlit("tag");
    reveal_strlit("rev");
    reveal_strlit("path");
    reveal_strlit("registry");
    assert("package"@.len() == 7 && "package"@[0] == 'p');
    assert("dependencies"@.len() == 12);
    assert("dev-dependencies"@.len() == 16);
    assert("build"@.len() == 5);
    assert("opt_level"@.len() == 9);
    assert("debug"@.len() == 5);
    assert("address_size"@.len() == 12);
    assert("name"@.len() == 4 && "name"@[0] == 'n');
    assert("version"@.len() == 7 && "version"@[0] == 'v');
    assert("authors"@.len() == 7 && "authors"@[0] == 'a');
    assert("description"@.len() == 11);
    assert("license"@.len() == 7 && "license"@[0] == 'l');
    assert("repository"@.len() == 10);
    assert("homepage"@.len() == 8 && "homepage"@[0] == 'h');
    assert("edition"@.len() == 7 && "edition"@[0] == 'e');
    assert("git"@.len() == 3 && "git"@[0] == 'g');
    assert("branch"@.len() == 6);
    assert("tag"@.len() == 3 && "tag"@[0] == 't');
    assert("rev"@.len() == 3 && "rev"@[0] == 'r');
    assert("path"@.len() == 4 && "path"@[0] == 'p');
    assert("registry"@.len() == 8 && "registry"@[0] == 'r');
}

/// The table written for a package table is read back as the same
/// package table.
pub proof fn lemma_package_round_trip(p: PackageMetadataView)
    ensures
        package_of(Node::Table(package_nodes(p))) == Some(p),
{
    lemma_manifest_keys_differ();
    let n = package_nodes(p);
    assert(text_node(n, "name"@) == Some(p.name));
    assert(text_node(n, "version"@) == Some(p.version));
    assert(n["authors"@] == Node::List(text_nodes(p.authors)));
    assert(authors_of(n) == Some(p.authors)) by {
        let items = text_nodes(p.authors);
        assert(text_list_of(Node::List(items))->0 =~= p.authors);
    }
    assert(text_node(n, "description"@) == p.description);
    assert(text_node(n, "license"@) == p.license);
    assert(text_node(n, "repository"@) == p.repository);
    assert(text_node(n, "homepage"@) == p.homepage);
    assert(text_node(n, "edition"@) == Some(p.edition));
}

/// The table written for a detailed declaration is read back as the same
/// declaration.
pub proof fn lemma_detailed_round_trip(t: DetailedDependencyView)
    ensures
        dependency_of(Node::Table(detailed_nodes(t))) == Some(DependencyView::Detailed(t)),
{
    lemma_manifest_keys_differ();
    let n = detailed_nodes(t);
    assert(text_node(n, "version"@) == t.version);
    assert(text_node(n, "git"@) == t.git);
    assert(text_node(n, "branch"@) == t.branch);
    assert(text_node(n, "tag"@) == t.tag);
    assert(text_node(n, "rev"@) == t.rev);
    assert(text_node(n, "path"@) == t.path);
    assert(text_node(n, "registry"@) == t.registry);
}

/// The table written for a dependency table is read back as the same
/// declarations.
pub proof fn lemma_declarations_round_trip(deps: Map<Seq<char>, DependencyView>)
    ensures
        declarations_of(declaration_nodes(deps)) == Some(deps),
{
    let d = declaration_nodes(deps);
    assert forall|name: Seq<char>| d.contains_key(name) implies (#[trigger] dependency_of(
        d[name],
    )) == Some(deps[name]) by {
        match deps[name] {
            DependencyView::Simple(_) => {},
            DependencyView::Detailed(t) => {
                lemma_detailed_round_trip(t);
            },
        }
    }
    assert(declarations_of(d)->0 =~= deps);
}

/// The document written for a manifest is read back as the same manifest.
pub proof fn lemma_manifest_round_trip(c: ManifestContent)
    ensures
        manifest_of(manifest_nodes(c)) == Some(c),
{
    lemma_manifest_keys_differ();
    lemma_package_round_trip(c.package);
    lemma_declarations_round_trip(c.dependencies);
    lemma_declarations_round_trip(c.dev_dependencies);
    let n = manifest_nodes(c);
    assert(n["package"@] == Node::Table(package_nodes(c.package)));
    assert(n["dependencies"@] == Node::Table(declaration_nodes(c.dependencies)));
    assert(n["dev-dependencies"@] == Node::Table(declaration_nodes(c.dev_dependencies)));
    assert(n["build"@] == Node::Table(build_nodes(c.build)));
    let b = build_nodes(c.build);
    assert(small_number_at(b, "opt_level"@, 2) == Some(c.build.opt_level)) by {
        assert((c.build.opt_level as i64) as u8 == c.build.opt_level);
    }
    assert(flag_at(b, "debug"@, false) == Some(c.build.debug));
    assert(small_number_at(b, "address_size"@, 64) == Some(c.build.address_size)) by {
        assert((c.build.address_size as i64) as u8 == c.build.address_size);
    }
    assert(build_of(n) == Some(c.build));
}

/// Sets `key` to the text `o` where there is one.
fn insert_optional_text(t: &mut toml::Table, key: &str, o: &Option<String>)
    ensures
        table_nodes(*final(t)) == with_optional(table_nodes(*old(t)), key@, text_opt(*o)),
{
    match o {
        Some(s) => {
            table_insert_text(t, key, s.as_str());
        },
        None => {},
    }
}

/// The table that stands for a package table.
pub fn package_table(p: &PackageMetadata) -> (r: toml::Table)
    ensures
        table_nodes(r) == package_nodes(p@),
{
    let mut authors: Vec<toml::Value> = Vec::new();
    let mut i: usize = 0;
    while i < p.authors.len()
        invariant
            i <= p.authors@.len(),
            value_nodes(authors@) == text_nodes(texts(p.authors@)).subrange(0, i as int),
        decreases p.authors@.len() - i,
    {
        let ghost before = value_nodes(authors@);
        let v = value_text(p.authors[i].as_str());
        authors.push(v);
        assert(value_nodes(authors@) =~= before.push(Node::Text(p.authors@[i as int]@)));
        assert(value_nodes(authors@) =~= text_nodes(texts(p.authors@)).subrange(0, i + 1));
        i += 1;
    }
    assert(text_nodes(texts(p.authors@)).subrange(0, p.authors@.len() as int) =~= text_nodes(
        texts(p.authors@),
    ));
    let mut t = table_new();
    table_insert_text(&mut t, "name", p.name.as_str());
    table_insert_text(&mut t, "version", p.version.as_str());
    table_insert_list(&mut t, "authors", authors);
    insert_optional_text(&mut t, "description", &p.description);
    insert_optional_text(&mut t, "license", &p.license);
    insert_optional_text(&mut t, "repository", &p.repository);
    insert_optional_text(&mut t, "homepage", &p.homepage);
    table_insert_text(&mut t, "edition", p.edition.as_str());
    t
}

/// The table that stands for a detailed declaration.
pub fn detailed_table(d: &DetailedDependency) -> (r: toml::Table)
    ensures
        table_nodes(r) == detailed_nodes(d@),
{
    let mut t = table_new();
    insert_optional_text(&mut t, "version", &d.version);
    insert_optional_text(&mut t, "git", &d.git);
    insert_optional_text(&mut t, "branch", &d.branch);
    insert_optional_text(&mut t, "tag", &d.tag);
    insert_optional_text(&mut t, "rev", &d.rev);
    insert_optional_text(&mut t, "path", &d.path);
    insert_optional_text(&mut t, "registry", &d.registry);
    t
}

/// The table that stands for a dependency table.
pub fn declarations_table(deps: &NameMap<Dependency>) -> (r: toml::Table)
    requires
        deps.wf(),
    ensures
        table_nodes(r) == declaration_nodes(declarations(*deps)),
{
    let mut t = table_new();
    let ghost items = deps.items();
    let mut i: usize = 0;
    assert(table_nodes(t) =~= declaration_nodes(
        Map::new(
            |name: Seq<char>| has_name(items.subrange(0, 0), name),
            |name: Seq<char>| deps@[name]@,
        ),
    ));
    while i < deps.len()
        invariant
            deps.wf(),
            items == deps.items(),
            i <= items.len(),
            table_nodes(t) == declaration_nodes(
                Map::new(
                    |name: Seq<char>| has_name(items.subrange(0, i as int), name),
                    |name: Seq<char>| deps@[name]@,
                ),
            ),
        decreases items.len() - i,
    {
        match deps.entry(i) {
            Some((name, dep)) => {
                proof {
                    lemma_items_map_at(items, i as int);
                    assert forall|k: Seq<char>|
                        #[trigger] has_name(items.subrange(0, i + 1), k) <==> (has_name(
                            items.subrange(0, i as int),
                            k,
                        ) || items[i as int].0 == k) by {
                        lemma_has_name_step(items, i as int, k);
                    }
                }
                match dep {
                    Dependency::Simple(version) => {
                        table_insert_text(&mut t, name.as_str(), version.as_str());
                    },
                    Dependency::Detailed(d) => {
                        let child = detailed_table(d);
                        table_insert_table(&mut t, name.as_str(), child);
                    },
                }
                assert(table_nodes(t) =~= declaration_nodes(
                    Map::new(
                        |name: Seq<char>| has_name(items.subrange(0, i + 1), name),
                        |name: Seq<char>| deps@[name]@,
                    ),
                ));
            },
            None => {},
        }
        i += 1;
    }
    proof {
        assert(items.subrange(0, items.len() as int) =~= items);
        assert(Map::new(
            |name: Seq<char>| has_name(items, name),
            |name: Seq<char>| deps@[name]@,
        ) =~= declarations(*deps));
    }
    t
}

/// The table that stands for the build settings.
pub fn build_table(b: &BuildConfig) -> (r: toml::Table)
    ensures
        table_nodes(r) == build_nodes(*b),
{
    let mut t = table_new();
    table_insert_integer(&mut t, "opt_level", b.opt_level as i64);
    table_insert_flag(&mut t, "debug", b.debug);
    table_insert_integer(&mut t, "address_size", b.address_size as i64);
    t
}

/// The content of an optional manifest.
pub open spec fn content_opt(o: Option<Manifest>) -> Option<ManifestContent> {
    match o {
        Some(m) => Some(content(m)),
        None => None,
    }
}

impl Manifest {
    /// The manifest that a document stands for; `None` where the document
    /// is no manifest.
    pub fn from_table(t: &toml::Table) -> (r: Option<Manifest>)
        ensures
            content_opt(r) == manifest_of(table_nodes(*t)),
            r is Some ==> r->0.wf(),
    {
        let package = match table_get(t, "package") {
            Some(v) => match read_package(v) {
                Some(p) => p,
                None => {
                    return None;
                },
            },
            None => {
                return None;
            },
        };
        let dependencies = match read_dependencies(t, "dependencies") {
            Some(d) => d,
            None => {
                return None;
            },
        };
        let dev_dependencies = match read_dependencies(t, "dev-dependencies") {
            Some(d) => d,
            None => {
                return None;
            },
        };
        let build = match read_build(t) {
            Some(b) => b,
            None => {
                return None;
            },
        };
        Some(Manifest { package, dependencies, dev_dependencies, build })
    }

    /// The document that stands for the manifest.
    pub fn to_table(&self) -> (r: toml::Table)
        requires
            self.wf(),
        ensures
            table_nodes(r) == manifest_nodes(content(*self)),
    {
        let mut t = table_new();
        table_insert_table(&mut t, "package", package_table(&self.package));
        table_insert_table(&mut t, "dependencies", declarations_table(&self.dependencies));
        table_insert_table(
            &mut t,
            "dev-dependencies",
            declarations_table(&self.dev_dependencies),
        );
        table_insert_table(&mut t, "build", build_table(&self.build));
        t
    }

    /// Writes the manifest as a TOML document.
    pub fn to_toml(&self) -> (r: Result<String, ManifestError>)
        requires
            self.wf(),
        ensures
            match r {
                Ok(text) => rendered(manifest_nodes(content(*self))) == Some(text@),
                Err(e) => e == ManifestError::Unwritable && rendered(
                    manifest_nodes(content(*self)),
                ) is None,
            },
    {
        let t = self.to_table();
        match render(&t) {
            Ok(text) => Ok(text),
            Err(_) => Err(ManifestError::Unwritable),
        }
    }

    /// Reads a manifest from a TOML document and checks its rules.
    pub fn from_toml(text: &str) -> (r: Result<Manifest, ManifestError>)
        ensures
            match r {
                Ok(m) => m.wf() && reading(text@) == Ok::<ManifestContent, ManifestError>(
                    content(m),
                ),
                Err(e) => reading(text@) == Err::<ManifestContent, ManifestError>(e),
            },
    {
        let t = match parse(text) {
            Ok(t) => t,
            Err(_) => {
                return Err(ManifestError::Syntax);
            },
        };
        let m = match Manifest::from_table(&t) {
            Some(m) => m,
            None => {
                return Err(ManifestError::Shape);
            },
        };
        match m.validate() {
            Ok(_) => Ok(m),
            Err(e) => Err(e),
        }
    }
}

impl Package {
    /// The package in the directory `root`, of whose manifest file
    /// `manifest_text` is the text; `None` stands for a directory without
    /// a manifest file.
    pub fn load(root: String, manifest_text: Option<&str>) -> (r: Result<Package, ManifestError>)
        ensures
            match manifest_text {
                None => r is Err && r->Err_0 == ManifestError::NotFound,
                Some(text) => match reading(text@) {
                    Ok(c) => r is Ok && r->Ok_0.root@ == root@ && r->Ok_0.manifest.wf()
                        && content(r->Ok_0.manifest) == c,
                    Err(e) => r is Err && r->Err_0 == e,
                },
            },
    {
        match manifest_text {
            None => Err(ManifestError::NotFound),
            Some(text) => match Manifest::from_toml(text) {
                Ok(manifest) => Ok(Package { root, manifest }),
                Err(e) => Err(e),
            },
        }
    }
}

} // verus!
