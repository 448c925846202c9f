//! The lockfile: the record of what a resolution found, and its form as a
//! TOML document.

use vstd::prelude::*;
use vstd::string::*;
use crate::dependency::{DependencyInfo, DependencyInfoView, DependencySource, ResolvedDependencies};
use crate::document::{
    empty_table, optional_text_fits, parse, parsed, read_optional_text, read_text, render,
    rendered, table_get, table_insert_integer, table_insert_table, table_insert_text, table_keys,
    table_new, table_nodes, take_apart, text_node, Item, Node,
};
use crate::manifest::{copy_opt, text_opt};
use crate::name_map::{has_name, lemma_has_name_step, lemma_items_map_at, place_of, NameMap};
use crate::text::{owned, texts};

verus! {

/// What a locked dependency holds, as plain text.
pub struct LockedDependencyView {
    pub name: Seq<char>,
    pub version: Seq<char>,
    pub source: Seq<char>,
    pub source_url: Option<Seq<char>>,
    pub checksum: Option<Seq<char>>,
}

/// The record of one resolved dependency in a lockfile.
#[derive(Debug)]
pub struct LockedDependency {
    /// Package name
    pub name: String,
    /// Package version
    pub version: String,
    /// Source type
    pub source: String,
    /// Source URL or path
    pub source_url: Option<String>,
    /// Checksum
    pub checksum: Option<String>,
}

impl View for LockedDependency {
    type V = LockedDependencyView;

    open spec fn view(&self) -> LockedDependencyView {
        LockedDependencyView {
            name: self.name@,
            version: self.version@,
            source: self.source@,
            source_url: text_opt(self.source_url),
            checksum: text_opt(self.checksum),
        }
    }
}

impl Clone for LockedDependency {
    fn clone(&self) -> (r: Self)
        ensures
            r@ == self@,
    {
        LockedDependency {
            name: self.name.clone(),
            version: self.version.clone(),
            source: self.source.clone(),
            source_url: copy_opt(&self.source_url),
            checksum: copy_opt(&self.checksum),
        }
    }
}

/// What a lockfile holds, as plain values.
pub struct LockfileView {
    pub version: u32,
    pub dependencies: Map<Seq<char>, LockedDependencyView>,
}

/// A lockfile: the version of its format, and the locked dependencies by
/// the name under which each was declared.
#[derive(Debug)]
pub struct Lockfile {
    /// Lockfile version
    pub version: u32,
    /// Locked dependencies
    pub dependencies: NameMap<LockedDependency>,
}

impl View for Lockfile {
    type V = LockfileView;

    open spec fn view(&self) -> LockfileView {
        LockfileView {
            version: self.version,
            dependencies: Map::new(
                |name: Seq<char>| self.dependencies@.contains_key(name),
                |name: Seq<char>| self.dependencies@[name]@,
            ),
        }
    }
}

/// The word that a lockfile writes for a source kind.
pub open spec fn source_word(source: DependencySource) -> Seq<char> {
    match source {
        DependencySource::Registry => "registry"@,
        DependencySource::Path => "path"@,
        DependencySource::Git => "git"@,
    }
}

/// The word that a lockfile writes for a source kind.
pub fn source_name(source: DependencySource) -> (r: &'static str)
    ensures
        r@ == source_word(source),
{
    match source {
        DependencySource::Registry => "registry",
        DependencySource::Path => "path",
        DependencySource::Git => "git",
    }
}

/// The lockfile record of a resolved dependency: its name, its version and
/// the word for its source; the source location and the checksum are left
/// unset.
pub open spec fn locked(info: DependencyInfoView) -> LockedDependencyView {
    LockedDependencyView {
        name: info.name,
        version: info.version,
        source: source_word(info.source),
        source_url: None,
        checksum: None,
    }
}

/// Why a lockfile could not be read or written.
#[derive(Debug, Clone, Copy, PartialEq, Eq, Structural)]
pub enum LockfileError {
    /// The text is no TOML document, or the document is no lockfile.
    ParseError,
    /// The TOML library refused to write the document.
    SerializeError,
}

/// The table that stands for a locked dependency: its name, version and
/// source as strings, and the source location and the checksum where they
/// are set.
pub open spec fn entry_nodes(e: LockedDependencyView) -> Map<Seq<char>, Node> {
    let base = empty_table().insert("name"@, Node::Text(e.name)).insert(
        "version"@,
        Node::Text(e.version),
    ).insert("source"@, Node::Text(e.source));
    let with_url = match e.source_url {
        Some(url) => base.insert("source_url"@, Node::Text(url)),
        None => base,
    };
    match e.checksum {
        Some(sum) => with_url.insert("checksum"@, Node::Text(sum)),
        None => with_url,
    }
}

/// The table of the locked dependencies: under each name the table of its
/// record.
pub open spec fn dependency_nodes(deps: Map<Seq<char>, LockedDependencyView>) -> Map<
    Seq<char>,
    Node,
> {
    Map::new(
        |name: Seq<char>| deps.contains_key(name),
        |name: Seq<char>| Node::Table(entry_nodes(deps[name])),
    )
}

/// The document that stands for a lockfile: the integer `version` and the
/// table `dependencies`.
pub open spec fn lockfile_nodes(l: LockfileView) -> Map<Seq<char>, Node> {
    empty_table().insert("version"@, Node::Integer(l.version as i64)).insert(
        "dependencies"@,
        Node::Table(dependency_nodes(l.dependencies)),
    )
}

/// The locked dependency that a node stands for: a table with the strings
/// `name`, `version` and `source`, in which `source_url` and `checksum`
/// are strings where they are present. Other keys are passed over.
pub open spec fn entry_of(node: Node) -> Option<LockedDependencyView> {
    match node {
        Node::Table(n) => {
            if text_node(n, "name"@) is Some && text_node(n, "version"@) is Some && text_node(
                n,
                "source"@,
            ) is Some && optional_text_fits(n, "source_url"@) && optional_text_fits(
                n,
                "checksum"@,
            ) {
                Some(
                    LockedDependencyView {
                        name: text_node(n, "name"@)->0,
                        version: text_node(n, "version"@)->0,
                        source: text_node(n, "source"@)->0,
                        source_url: text_node(n, "source_url"@),
                        checksum: text_node(n, "checksum"@),
                    },
                )
            } else {
                None
            }
        },
        _ => None,
    }
}

/// The lockfile that a document stands for: its `version` is an integer
/// that fits 32 bits without sign, and its `dependencies` is a table of
/// locked dependencies. Other keys are passed over.
pub open spec fn lockfile_of(nodes: Map<Seq<char>, Node>) -> Option<LockfileView> {
    if nodes.contains_key("version"@) && nodes.contains_key("dependencies"@) {
        match (nodes["version"@], nodes["dependencies"@]) {
            (Node::Integer(v), Node::Table(d)) => {
                if 0 <= v <= u32::MAX && (forall|name: Seq<char>|
                    d.contains_key(name) ==> (#[trigger] entry_of(d[name])) is Some) {
                    Some(
                        LockfileView {
                            version: v as u32,
                            dependencies: Map::new(
                                |name: Seq<char>| d.contains_key(name),
                                |name: Seq<char>| entry_of(d[name])->0,
                            ),
                        },
                    )
                } else {
                    None
                }
            },
            _ => None,
        }
    } else {
        None
    }
}

/// The text that is written for a lockfile, or `None` where the TOML
/// library refuses its document.
pub open spec fn written(l: LockfileView) -> Option<Seq<char>> {
    rendered(lockfile_nodes(l))
}

/// The lockfile that is read from a text, or `None` where the text is no
/// TOML document or the document is no lockfile.
pub open spec fn read(text: Seq<char>) -> Option<LockfileView> {
    match parsed(text) {
        Some(nodes) => lockfile_of(nodes),
        None => None,
    }
}

/// The keys of a lockfile document differ from one another.
pub proof fn lemma_keys_differ()
    ensures
        "version"@ != "dependencies"@,
        "name"@ != "version"@,
        "name"@ != "source"@,
        "name"@ != "source_url"@,
        "name"@ != "checksum"@,
        "version"@ != "source"@,
        "version"@ != "source_url"@,
        "version"@ != "checksum"@,
        "source"@ != "source_url"@,
        "source"@ != "checksum"@,
        "source_url"@ != "checksum"@,
{
    reveal_strlit("version");
    reveal_strlit("dependencies");
    reveal_strlit("name");
    reveal_strlit("source");
    reveal_strlit("source_url");
    reveal_strlit("checksum");
    assert("version"@.len() == 7);
    assert("dependencies"@.len() == 12);
    assert("name"@.len() == 4);
    assert("source"@.len() == 6);
    assert("source_url"@.len() == 10);
    assert("checksum"@.len() == 8);
}

/// The table written for a locked dependency is read back as the same
/// locked dependency.
pub proof fn lemma_entry_round_trip(e: LockedDependencyView)
    ensures
        entry_of(Node::Table(entry_nodes(e))) == Some(e),
{
    lemma_keys_differ();
    let n = entry_nodes(e);
    assert(text_node(n, "name"@) == Some(e.name));
    assert(text_node(n, "version"@) == Some(e.version));
    assert(text_node(n, "source"@) == Some(e.source));
    assert(text_node(n, "source_url"@) == e.source_url);
    assert(text_node(n, "checksum"@) == e.checksum);
}

/// The document written for a lockfile is read back as the same lockfile.
pub proof fn lemma_document_round_trip(l: LockfileView)
    ensures
        lockfile_of(lockfile_nodes(l)) == Some(l),
{
    lemma_keys_differ();
    let nodes = lockfile_nodes(l);
    let d = dependency_nodes(l.dependencies);
    assert(nodes["version"@] == Node::Integer(l.version as i64));
    assert(nodes["dependencies"@] == Node::Table(d));
    assert forall|name: Seq<char>| d.contains_key(name) implies (#[trigger] entry_of(
        d[name],
    )) == Some(l.dependencies[name]) by {
        lemma_entry_round_trip(l.dependencies[name]);
    }
    let back = lockfile_of(nodes)->0;
    assert(back.dependencies =~= l.dependencies);
    assert((l.version as i64) as u32 == l.version);
}

/// A lockfile survives being written and read, provided the TOML library
/// reads back from the text it wrote the document it was given.
pub proof fn lemma_text_round_trip(l: LockfileView, text: Seq<char>)
    requires
        written(l) == Some(text),
        parsed(text) == Some(lockfile_nodes(l)),
    ensures
        read(text) == Some(l),
{
    lemma_document_round_trip(l);
}

/// The names, versions and sources that a lockfile made from a resolution
/// holds after being written and read are those of the resolved records.
pub proof fn lemma_resolution_round_trip(
    resolved: Map<Seq<char>, DependencyInfoView>,
    l: LockfileView,
    text: Seq<char>,
)
    requires
        l.dependencies.dom() == resolved.dom(),
        forall|name: Seq<char>|
            resolved.contains_key(name) ==> #[trigger] l.dependencies[name] == locked(
                resolved[name],
            ),
        written(l) == Some(text),
        parsed(text) == Some(lockfile_nodes(l)),
    ensures
        read(text) is Some,
        read(text)->0.dependencies.dom() == resolved.dom(),
        forall|name: Seq<char>|
            resolved.contains_key(name) ==> {
                let e = #[trigger] read(text)->0.dependencies[name];
                &&& e.name == resolved[name].name
                &&& e.version == resolved[name].version
                &&& e.source == source_word(resolved[name].source)
            },
{
    lemma_text_round_trip(l, text);
}

/// The view of an optional locked dependency.
pub open spec fn entry_opt(e: Option<LockedDependency>) -> Option<LockedDependencyView> {
    match e {
        Some(d) => Some(d@),
        None => None,
    }
}

/// The view of an optional lockfile.
pub open spec fn lockfile_opt(l: Option<Lockfile>) -> Option<LockfileView> {
    match l {
        Some(f) => Some(f@),
        None => None,
    }
}

/// The table that stands for a locked dependency.
pub fn entry_table(e: &LockedDependency) -> (r: toml::Table)
    ensures
        table_nodes(r) == entry_nodes(e@),
{
    let mut t = table_new();
    table_insert_text(&mut t, "name", e.name.as_str());
    table_insert_text(&mut t, "version", e.version.as_str());
    table_insert_text(&mut t, "source", e.source.as_str());
    match &e.source_url {
        Some(url) => {
            table_insert_text(&mut t, "source_url", url.as_str());
        },
        None => {},
    }
    match &e.checksum {
        Some(sum) => {
            table_insert_text(&mut t, "checksum", sum.as_str());
        },
        None => {},
    }
    t
}

/// The locked dependency that a value stands for.
pub fn entry_from_value(v: toml::Value) -> (r: Option<LockedDependency>)
    ensures
        entry_opt(r) == entry_of(crate::document::value_node(v)),
{
    match take_apart(v) {
        Item::Table(t) => {
            let name = match read_text(&t, "name") {
                Some(s) => s,
                None => {
                    return None;
                },
            };
            let version = match read_text(&t, "version") {
                Some(s) => s,
                None => {
                    return None;
                },
            };
            let source = match read_text(&t, "source") {
                Some(s) => s,
                None => {
                    return None;
                },
            };
            let source_url = match read_optional_text(&t, "source_url") {
                Some(o) => o,
                None => {
                    return None;
                },
            };
            let checksum = match read_optional_text(&t, "checksum") {
                Some(o) => o,
                None => {
                    return None;
                },
            };
            Some(LockedDependency { name, version, source, source_url, checksum })
        },
        _ => None,
    }
}

impl Lockfile {
    /// No name is locked twice.
    pub open spec fn wf(&self) -> bool {
        self.dependencies.wf()
    }

    /// A lockfile of format version 1 without dependencies.
    pub fn new() -> (r: Self)
        ensures
            r.wf(),
            r@.version == 1,
            r@.dependencies == Map::<Seq<char>, LockedDependencyView>::empty(),
            r.dependencies.items().len() == 0,
    {
        let r = Lockfile { version: 1, dependencies: NameMap::new() };
        assert(r@.dependencies =~= Map::<Seq<char>, LockedDependencyView>::empty());
        r
    }

    /// The lockfile of a resolution: format version 1, and one record for
    /// each resolved dependency, under the same name and in the same order.
    pub fn from_resolved(resolved: &ResolvedDependencies) -> (r: Self)
        requires
            resolved.wf(),
        ensures
            r.wf(),
            r@.version == 1,
            r@.dependencies.dom() == resolved@.dom(),
            forall|name: Seq<char>|
                resolved@.contains_key(name) ==> #[trigger] r@.dependencies[name] == locked(
                    resolved@[name],
                ),
            r.dependencies.items().len() == resolved.table().items().len(),
            forall|i: int|
                0 <= i < r.dependencies.items().len() ==> (#[trigger] r.dependencies.items()[i]).0
                    == resolved.table().items()[i].0,
    {
        let mut r = Lockfile::new();
        assert(forall|name: Seq<char>| !has_name(r.dependencies.items(), name));
        let all = resolved.all();
        let ghost items = all.items();
        let mut i: usize = 0;
        assert(items.subrange(0, 0) =~= Seq::<(Seq<char>, DependencyInfo)>::empty());
        while i < all.len()
            invariant
                *all == resolved.table(),
                items == all.items(),
                all.wf(),
                r.wf(),
                r.version == 1,
                i <= items.len(),
                r.dependencies.items().len() == i,
                forall|j: int|
                    0 <= j < i ==> (#[trigger] r.dependencies.items()[j]).0 == items[j].0,
                forall|name: Seq<char>|
                    #[trigger] r.dependencies@.contains_key(name) <==> has_name(
                        items.subrange(0, i as int),
                        name,
                    ),
                forall|name: Seq<char>|
                    r.dependencies@.contains_key(name) ==> (#[trigger] r.dependencies@[name])@
                        == locked(all@[name]@),
            decreases items.len() - i,
        {
            match all.entry(i) {
                Some((name, info)) => {
                    proof {
                        lemma_items_map_at(items, i as int);
                        assert forall|k: Seq<char>|
                            #[trigger] has_name(items.subrange(0, i + 1), k) <==> (has_name(
                                items.subrange(0, i as int),
                                k,
                            ) || items[i as int].0 == k) by {
                            lemma_has_name_step(items, i as int, k);
                        }
                        if has_name(items.subrange(0, i as int), name@) {
                            let p = place_of(items.subrange(0, i as int), name@);
                            assert(items[p].0 != items[i as int].0);
                        }
                    }
                    let entry = LockedDependency {
                        name: info.name.clone(),
                        version: info.version.clone(),
                        source: owned(source_name(info.source)),
                        source_url: None,
                        checksum: None,
                    };
                    let ghost before = r.dependencies@;
                    let ghost before_items = r.dependencies.items();
                    assert(!has_name(before_items, name@)) by {
                        assert(!before.contains_key(name@));
                    }
                    r.dependencies.insert(name.clone(), entry);
                    assert forall|k: Seq<char>|
                        #[trigger] r.dependencies@.contains_key(k) <==> has_name(
                            items.subrange(0, i + 1),
                            k,
                        ) by {
                        assert(r.dependencies@.contains_key(k) <==> (before.contains_key(k) || k
                            == items[i as int].0));
                    }
                },
                None => {},
            }
            i += 1;
        }
        assert(items.subrange(0, items.len() as int) =~= items);
        assert(r@.dependencies.dom() =~= resolved@.dom());
        r
    }
    /// The document that stands for the lockfile.
    pub fn to_table(&self) -> (r: toml::Table)
        requires
            self.wf(),
        ensures
            table_nodes(r) == lockfile_nodes(self@),
    {
        let mut deps = table_new();
        let ghost items = self.dependencies.items();
        let mut i: usize = 0;
        assert(table_nodes(deps) =~= dependency_nodes(
            Map::new(
                |name: Seq<char>| has_name(items.subrange(0, 0), name),
                |name: Seq<char>| self.dependencies@[name]@,
            ),
        ));
        while i < self.dependencies.len()
            invariant
                self.wf(),
                items == self.dependencies.items(),
                i <= items.len(),
                table_nodes(deps) == dependency_nodes(
                    Map::new(
                        |name: Seq<char>| has_name(items.subrange(0, i as int), name),
                        |name: Seq<char>| self.dependencies@[name]@,
                    ),
                ),
            decreases items.len() - i,
        {
            match self.dependencies.entry(i) {
                Some((name, e)) => {
                    proof {
                        lemma_items_map_at(items, i as int);
                        assert forall|k: Seq<char>|
                            #[trigger] has_name(items.subrange(0, i + 1), k) <==> (has_name(
                                items.subrange(0, i as int),
                                k,
                            ) || items[i as int].0 == k) by {
                            lemma_has_name_step(items, i as int, k);
                        }
                    }
                    let child = entry_table(e);
                    table_insert_table(&mut deps, name.as_str(), child);
                    assert(table_nodes(deps) =~= dependency_nodes(
                        Map::new(
                            |name: Seq<char>| has_name(items.subrange(0, i + 1), name),
                            |name: Seq<char>| self.dependencies@[name]@,
                        ),
                    ));
                },
                None => {},
            }
            i += 1;
        }
        proof {
            assert(items.subrange(0, items.len() as int) =~= items);
            assert(Map::new(
                |name: Seq<char>| has_name(items, name),
                |name: Seq<char>| self.dependencies@[name]@,
            ) =~= self@.dependencies);
        }
        let mut t = table_new();
        table_insert_integer(&mut t, "version", self.version as i64);
        table_insert_table(&mut t, "dependencies", deps);
        t
    }

    /// The lockfile that a document stands for; `None` where the document
    /// is no lockfile.
    pub fn from_table(t: &toml::Table) -> (r: Option<Lockfile>)
        ensures
            lockfile_opt(r) == lockfile_of(table_nodes(*t)),
            r is Some ==> r->0.wf(),
    {
        let version: u32 = match table_get(t, "version") {
            Some(v) => match take_apart(v) {
                Item::Integer(n) => {
                    if 0 <= n && n <= 4294967295 {
                        n as u32
                    } else {
                        return None;
                    }
                },
                _ => {
                    return None;
                },
            },
            None => {
                return None;
            },
        };
        let d = match table_get(t, "dependencies") {
            Some(v) => match take_apart(v) {
                Item::Table(d) => d,
                _ => {
                    return None;
                },
            },
            None => {
                return None;
            },
        };
        let ghost tn = table_nodes(*t);
        let ghost dn = table_nodes(d);
        let keys = table_keys(&d);
        let mut deps: NameMap<LockedDependency> = NameMap::new();
        let mut i: usize = 0;
        while i < keys.len()
            invariant
                tn == table_nodes(*t),
                tn.contains_key("version"@),
                tn.contains_key("dependencies"@),
                tn["version"@] == Node::Integer(version as i64),
                tn["dependencies"@] == Node::Table(dn),
                dn == table_nodes(d),
                texts(keys@).no_duplicates(),
                texts(keys@).to_set() == dn.dom(),
                i <= keys@.len(),
                deps.wf(),
                deps.items().len() == i,
                forall|j: int| 0 <= j < i ==> (#[trigger] deps.items()[j]).0 == keys@[j]@,
                forall|j: int|
                    0 <= j < i ==> entry_of(dn[keys@[j]@]) == Some(
                        (#[trigger] deps.items()[j]).1@,
                    ),
            decreases keys@.len() - i,
        {
            let key = &keys[i];
            proof {
                assert(texts(keys@)[i as int] == key@);
                assert(texts(keys@).contains(key@));
                assert(texts(keys@).to_set().contains(key@));
                assert(dn.contains_key(key@));
            }
            let entry = match table_get(&d, key.as_str()) {
                Some(v) => entry_from_value(v),
                None => None,
            };
            let ghost before = deps.items();
            match entry {
                Some(e) => {
                    proof {
                        if has_name(deps.items(), key@) {
                            let p = place_of(deps.items(), key@);
                            assert(texts(keys@)[p] == texts(keys@)[i as int]);
                        }
                    }
                    deps.insert(key.clone(), e);
                    assert(deps.items() == before.push((key@, e)));
                },
                None => {
                    assert(entry_of(dn[key@]) is None);
                    return None;
                },
            }
            assert forall|j: int| 0 <= j < i + 1 implies entry_of(dn[keys@[j]@]) == Some(
                (#[trigger] deps.items()[j]).1@,
            ) by {
                if j < i {
                    assert(deps.items()[j] == before[j]);
                }
            }
            i += 1;
        }
        let r = Lockfile { version, dependencies: deps };
        proof {
            let items = deps.items();
            assert forall|name: Seq<char>| dn.contains_key(name) implies has_name(items, name)
                && (#[trigger] entry_of(dn[name])) == Some(deps@[name]@) by {
                assert(texts(keys@).to_set().contains(name));
                assert(texts(keys@).contains(name));
                let j = choose|j: int| 0 <= j < texts(keys@).len() && texts(keys@)[j] == name;
                assert(items[j].0 == name);
                lemma_items_map_at(items, j);
            }
            assert forall|name: Seq<char>| has_name(items, name) implies dn.contains_key(name) by {
                let j = place_of(items, name);
                assert(texts(keys@)[j] == name);
                assert(texts(keys@).contains(name));
                assert(texts(keys@).to_set().contains(name));
            }
            let want = lockfile_of(tn);
            assert(want is Some);
            assert forall|name: Seq<char>|
                want->0.dependencies.contains_key(name) <==> r@.dependencies.contains_key(
                    name,
                ) by {
                if dn.contains_key(name) {
                    assert(entry_of(dn[name]) == Some(deps@[name]@));
                    assert(has_name(items, name));
                }
                if has_name(items, name) {
                    assert(dn.contains_key(name));
                }
            }
            assert forall|name: Seq<char>|
                want->0.dependencies.contains_key(name) implies want->0.dependencies[name]
                    == r@.dependencies[name] by {
                assert(entry_of(dn[name]) == Some(deps@[name]@));
            }
            assert(want->0.dependencies =~= r@.dependencies);
        }
        Some(r)
    }

    /// Writes the lockfile as a TOML document.
    pub fn to_toml(&self) -> (r: Result<String, LockfileError>)
        requires
            self.wf(),
        ensures
            match r {
                Ok(text) => written(self@) == Some(text@),
                Err(e) => e == LockfileError::SerializeError && written(self@) is None,
            },
    {
        let t = self.to_table();
        match render(&t) {
            Ok(text) => Ok(text),
            Err(_) => Err(LockfileError::SerializeError),
        }
    }

    /// Reads a lockfile from a TOML document.
    pub fn from_toml(text: &str) -> (r: Result<Lockfile, LockfileError>)
        ensures
            match r {
                Ok(l) => l.wf() && read(text@) == Some(l@),
                Err(e) => e == LockfileError::ParseError && read(text@) is None,
            },
    {
        match parse(text) {
            Ok(t) => match Lockfile::from_table(&t) {
                Some(l) => Ok(l),
                None => Err(LockfileError::ParseError),
            },
            Err(_) => Err(LockfileError::ParseError),
        }
    }
}

impl Default for Lockfile {
    fn default() -> (r: Self)
        ensures
            r.wf(),
            r@.version == 1,
            r@.dependencies == Map::<Seq<char>, LockedDependencyView>::empty(),
    {
        Lockfile::new()
    }
}

} // verus!
