use std::collections::{HashMap, HashSet};

use quantum_cli::dependency::{DependencySource, ResolvedDependencies};
use quantum_cli::manifest::{BuildConfig, Dependency, DetailedDependency, Manifest};
use quantum_cli::resolver::{
    cache_dir_under, Action, DependencyResolver, ErrorKind, Event, ResolveError, MAX_DEPTH,
};

/// A file system, a registry and a git server held in memory.
struct World {
    dirs: HashSet<String>,
    manifests: HashMap<String, Manifest>,
    registry: HashMap<(String, String), Manifest>,
    repos: HashMap<String, Manifest>,
    downloads: usize,
    commands: Vec<Vec<String>>,
    probes: usize,
    fail_download: bool,
    fail_extract: bool,
    fail_commands: bool,
}

impl World {
    fn new() -> World {
        World {
            dirs: HashSet::new(),
            manifests: HashMap::new(),
            registry: HashMap::new(),
            repos: HashMap::new(),
            downloads: 0,
            commands: Vec::new(),
            probes: 0,
            fail_download: false,
            fail_extract: false,
            fail_commands: false,
        }
    }

    fn add_dir(&mut self, dir: &str, manifest: Manifest) {
        self.dirs.insert(dir.to_string());
        self.manifests.insert(format!("{}/Quantum.toml", dir), manifest);
    }

    fn publish(&mut self, name: &str, version: &str, manifest: Manifest) {
        self.registry.insert((name.to_string(), version.to_string()), manifest);
    }

    fn answer(&mut self, action: Action) -> Event {
        match action {
            Action::Probe { path } => {
                self.probes += 1;
                Event::Exists(self.dirs.contains(&path))
            }
            Action::Download { name, version } => {
                self.downloads += 1;
                if self.fail_download {
                    return Event::Failed;
                }
                if self.registry.contains_key(&(name.clone(), version.clone())) {
                    Event::Downloaded(format!("{}@{}", name, version).into_bytes())
                } else {
                    Event::NotFound
                }
            }
            Action::Extract { archive, dest } => {
                if self.fail_extract {
                    return Event::Failed;
                }
                let key = String::from_utf8(archive).unwrap();
                let (name, version) = key.split_once('@').unwrap();
                let manifest = self.registry[&(name.to_string(), version.to_string())].duplicate();
                self.add_dir(&dest, manifest);
                Event::Done
            }
            Action::Run { program, args } => {
                assert_eq!(program, "git");
                self.commands.push(args.clone());
                if self.fail_commands {
                    return Event::Failed;
                }
                if args[0] == "clone" {
                    let dest = args[args.len() - 1].clone();
                    let url = args[args.len() - 2].clone();
                    match self.repos.get(&url) {
                        Some(m) => {
                            let m = m.duplicate();
                            self.add_dir(&dest, m);
                            Event::Done
                        }
                        None => Event::Failed,
                    }
                } else {
                    Event::Done
                }
            }
            Action::Load { path } => match self.manifests.get(&path) {
                Some(m) => Event::Loaded(m.duplicate()),
                None => Event::Failed,
            },
            Action::Finish | Action::Fail(_) => unreachable!(),
        }
    }

    fn resolve(&mut self, manifest: &Manifest) -> Result<ResolvedDependencies, ResolveError> {
        let resolver = DependencyResolver::new("/cache".to_string());
        let (mut state, mut action) = resolver.resolve(manifest);
        loop {
            match action {
                Action::Finish => {
                    assert!(state.is_finished());
                    return Ok(state.into_resolved().unwrap());
                }
                Action::Fail(e) => {
                    assert!(!state.is_finished());
                    assert!(state.into_resolved().is_none());
                    return Err(e);
                }
                other => {
                    let event = self.answer(other);
                    action = state.step(event);
                }
            }
        }
    }
}

fn package(name: &str, version: &str) -> Manifest {
    let mut m = Manifest::new(name.to_string());
    m.package.version = version.to_string();
    m.build = BuildConfig { opt_level: 2, debug: false, address_size: 64 };
    m
}

fn detailed() -> DetailedDependency {
    DetailedDependency {
        version: None,
        git: None,
        branch: None,
        tag: None,
        rev: None,
        path: None,
        registry: None,
    }
}

fn by_version(v: &str) -> Dependency {
    Dependency::Simple(v.to_string())
}

fn by_path(p: &str) -> Dependency {
    Dependency::Detailed(DetailedDependency { path: Some(p.to_string()), ..detailed() })
}

fn by_git(url: &str) -> Dependency {
    Dependency::Detailed(DetailedDependency { git: Some(url.to_string()), ..detailed() })
}

fn with(mut m: Manifest, name: &str, dep: Dependency) -> Manifest {
    m.dependencies.insert(name.to_string(), dep);
    m
}

#[test]
fn empty_dependency_table_resolves_to_nothing() {
    let mut world = World::new();
    let set = world.resolve(&package("top", "0.1.0")).unwrap();
    assert_eq!(set.all().len(), 0);
    assert_eq!(world.probes, 0);
    assert_eq!(world.downloads, 0);
}

#[test]
fn first_action_of_empty_manifest_is_finish() {
    let resolver = DependencyResolver::new("/cache".to_string());
    let (state, action) = resolver.resolve(&package("top", "0.1.0"));
    assert!(matches!(action, Action::Finish));
    assert!(state.is_finished());
    assert_eq!(state.resolved().all().len(), 0);
}

#[test]
fn acyclic_graph_resolves_every_reachable_name() {
    let mut world = World::new();
    world.publish("a", "1.0.0", with(package("a", "1.0.0"), "b", by_version("1.1.0")));
    world.publish("b", "1.1.0", with(package("b", "1.1.0"), "c", by_version("0.5.0")));
    world.publish("c", "0.5.0", package("c", "0.5.0"));
    world.publish("d", "2.0.0", with(package("d", "2.0.0"), "c", by_version("0.5.0")));
    world.publish("unused", "9.9.9", package("unused", "9.9.9"));
    let top = with(with(package("top", "0.1.0"), "a", by_version("1.0.0")), "d", by_version("2.0.0"));
    let set = world.resolve(&top).unwrap();
    assert_eq!(set.all().len(), 4);
    for name in ["a", "b", "c", "d"] {
        assert!(set.contains(name));
    }
    assert!(!set.contains("unused"));
    assert!(!set.contains("top"));
    assert_eq!(set.get("b").unwrap().version, "1.1.0");
    assert_eq!(set.get("b").unwrap().path, "/cache/b-1.1.0");
    assert_eq!(set.get("b").unwrap().source, DependencySource::Registry);
}

#[test]
fn diamond_keeps_the_version_reached_first() {
    let mut world = World::new();
    world.publish("a", "1.0.0", with(package("a", "1.0.0"), "c", by_version("1.0.0")));
    world.publish("b", "1.0.0", with(package("b", "1.0.0"), "c", by_version("2.0.0")));
    world.publish("c", "1.0.0", package("c", "1.0.0"));
    world.publish("c", "2.0.0", package("c", "2.0.0"));
    let top = with(with(package("top", "0.1.0"), "a", by_version("1.0.0")), "b", by_version("1.0.0"));
    let set = world.resolve(&top).unwrap();
    assert_eq!(set.all().len(), 3);
    assert_eq!(set.get("c").unwrap().version, "1.0.0");
    assert_eq!(world.downloads, 3);
}

#[test]
fn diamond_in_the_other_order_keeps_the_other_version() {
    let mut world = World::new();
    world.publish("a", "1.0.0", with(package("a", "1.0.0"), "c", by_version("1.0.0")));
    world.publish("b", "1.0.0", with(package("b", "1.0.0"), "c", by_version("2.0.0")));
    world.publish("c", "1.0.0", package("c", "1.0.0"));
    world.publish("c", "2.0.0", package("c", "2.0.0"));
    let top = with(with(package("top", "0.1.0"), "b", by_version("1.0.0")), "a", by_version("1.0.0"));
    let set = world.resolve(&top).unwrap();
    assert_eq!(set.get("c").unwrap().version, "2.0.0");
}

#[test]
fn breadth_first_prefers_the_shallower_declaration() {
    // top -> a -> x -> c@1.0.0 ; top -> b -> c@2.0.0 : c is first reached below b.
    let mut world = World::new();
    world.publish("a", "1.0.0", with(package("a", "1.0.0"), "x", by_version("1.0.0")));
    world.publish("x", "1.0.0", with(package("x", "1.0.0"), "c", by_version("1.0.0")));
    world.publish("b", "1.0.0", with(package("b", "1.0.0"), "c", by_version("2.0.0")));
    world.publish("c", "1.0.0", package("c", "1.0.0"));
    world.publish("c", "2.0.0", package("c", "2.0.0"));
    let top = with(with(package("top", "0.1.0"), "a", by_version("1.0.0")), "b", by_version("1.0.0"));
    let set = world.resolve(&top).unwrap();
    assert_eq!(set.all().len(), 4);
    assert_eq!(set.get("c").unwrap().version, "2.0.0");
}

fn chain(world: &mut World, length: usize) {
    for i in 0..length {
        let dir = format!("/src/p{}", i);
        let mut m = package(&format!("p{}", i), "1.0.0");
        if i + 1 < length {
            m = with(m, &format!("p{}", i + 1), by_path(&format!("/src/p{}", i + 1)));
        }
        world.add_dir(&dir, m);
    }
}

#[test]
fn chain_longer_than_the_bound_fails_with_depth_exceeded() {
    let mut world = World::new();
    chain(&mut world, MAX_DEPTH + 2);
    let top = with(package("top", "0.1.0"), "p0", by_path("/src/p0"));
    let e = world.resolve(&top).err().unwrap();
    assert_eq!(e.kind, ErrorKind::DepthExceeded);
    assert_eq!(e.dependency, "p101");
}

#[test]
fn chain_as_deep_as_the_bound_resolves() {
    let mut world = World::new();
    chain(&mut world, MAX_DEPTH + 1);
    let top = with(package("top", "0.1.0"), "p0", by_path("/src/p0"));
    let set = world.resolve(&top).unwrap();
    assert_eq!(set.all().len(), 101);
    assert!(set.contains("p100"));
}

#[test]
fn cycle_of_more_names_than_the_bound_fails() {
    let mut world = World::new();
    let n = MAX_DEPTH + 5;
    for i in 0..n {
        let next = (i + 1) % n;
        let m = with(
            package(&format!("p{}", i), "1.0.0"),
            &format!("p{}", next),
            by_path(&format!("/src/p{}", next)),
        );
        world.add_dir(&format!("/src/p{}", i), m);
    }
    let top = with(package("top", "0.1.0"), "p0", by_path("/src/p0"));
    let e = world.resolve(&top).err().unwrap();
    assert_eq!(e.kind, ErrorKind::DepthExceeded);
}

#[test]
fn self_reference_under_one_name_is_dropped() {
    let mut world = World::new();
    world.add_dir("/src/me", with(package("me", "1.0.0"), "me", by_path("/src/me")));
    let top = with(package("top", "0.1.0"), "me", by_path("/src/me"));
    let set = world.resolve(&top).unwrap();
    assert_eq!(set.all().len(), 1);
}

#[test]
fn registry_dependency_is_downloaded_once() {
    let mut world = World::new();
    world.publish("a", "1.0.0", package("a", "1.0.0"));
    let top = with(package("top", "0.1.0"), "a", by_version("1.0.0"));
    let first = world.resolve(&top).unwrap();
    assert_eq!(world.downloads, 1);
    let second = world.resolve(&top).unwrap();
    assert_eq!(world.downloads, 1);
    let x = first.get("a").unwrap();
    let y = second.get("a").unwrap();
    assert_eq!(x.name, y.name);
    assert_eq!(x.version, y.version);
    assert_eq!(x.source, y.source);
    assert_eq!(y.source, DependencySource::Registry);
    assert_eq!(x.path, "/cache/a-1.0.0");
}

#[test]
fn git_without_reference_is_cached_under_head() {
    let mut world = World::new();
    world.repos.insert("https://host/org/repo.git".to_string(), package("repo", "0.4.0"));
    let top = with(package("top", "0.1.0"), "repo", by_git("https://host/org/repo.git"));
    let resolver = DependencyResolver::new("/cache".to_string());
    let (_, action) = resolver.resolve(&top);
    match action {
        Action::Probe { path } => assert_eq!(path, "/cache/https___host_org_repo.git-HEAD"),
        _ => panic!("expected a probe"),
    }
    let set = world.resolve(&top).unwrap();
    let r = set.get("repo").unwrap();
    assert_eq!(r.source, DependencySource::Git);
    assert_eq!(r.path, "/cache/https___host_org_repo.git-HEAD");
    assert_eq!(
        world.commands,
        vec![vec![
            "clone".to_string(),
            "https://host/org/repo.git".to_string(),
            "/cache/https___host_org_repo.git-HEAD".to_string()
        ]]
    );
    // the second resolution finds the checkout in the cache
    world.resolve(&top).unwrap();
    assert_eq!(world.commands.len(), 1);
}

#[test]
fn git_branch_is_cloned_and_revision_checked_out() {
    let mut world = World::new();
    world.repos.insert("git@host:repo".to_string(), package("repo", "0.4.0"));
    let dep = Dependency::Detailed(DetailedDependency {
        git: Some("git@host:repo".to_string()),
        branch: Some("feature/x".to_string()),
        rev: Some("abc123".to_string()),
        tag: Some("v1".to_string()),
        version: Some("1.0.0".to_string()),
        ..detailed()
    });
    let top = with(package("top", "0.1.0"), "repo", dep);
    let set = world.resolve(&top).unwrap();
    let dir = "/cache/git@host_repo-feature_x";
    assert_eq!(set.get("repo").unwrap().path, dir);
    assert_eq!(
        world.commands,
        vec![
            vec![
                "clone".to_string(),
                "--branch".to_string(),
                "feature/x".to_string(),
                "git@host:repo".to_string(),
                dir.to_string()
            ],
            vec!["-C".to_string(), dir.to_string(), "checkout".to_string(), "abc123".to_string()],
        ]
    );
}

#[test]
fn git_reference_prefers_tag_over_revision() {
    let dep = Dependency::Detailed(DetailedDependency {
        git: Some("u".to_string()),
        rev: Some("r".to_string()),
        tag: Some("t".to_string()),
        ..detailed()
    });
    let top = with(package("top", "0.1.0"), "repo", dep);
    let (_, action) = DependencyResolver::new("/c".to_string()).resolve(&top);
    match action {
        Action::Probe { path } => assert_eq!(path, "/c/u-t"),
        _ => panic!("expected a probe"),
    }
}

#[test]
fn declaration_without_source_is_a_spec_error_before_any_work() {
    let top = with(package("top", "0.1.0"), "odd", Dependency::Detailed(detailed()));
    let (state, action) = DependencyResolver::new("/cache".to_string()).resolve(&top);
    match action {
        Action::Fail(e) => {
            assert_eq!(e.kind, ErrorKind::SpecError);
            assert_eq!(e.dependency, "odd");
        }
        _ => panic!("expected a failure"),
    }
    assert!(state.into_resolved().is_none());
    let mut world = World::new();
    assert!(world.resolve(&top).is_err());
    assert_eq!(world.probes, 0);
}

#[test]
fn path_goes_before_git_and_git_before_version() {
    let mut world = World::new();
    world.add_dir("/src/dep", package("dep", "1.0.0"));
    let dep = Dependency::Detailed(DetailedDependency {
        path: Some("/src/dep".to_string()),
        git: Some("https://host/dep".to_string()),
        version: Some("3.0.0".to_string()),
        ..detailed()
    });
    let top = with(package("top", "0.1.0"), "dep", dep);
    let set = world.resolve(&top).unwrap();
    let d = set.get("dep").unwrap();
    assert_eq!(d.source, DependencySource::Path);
    assert_eq!(d.path, "/src/dep");
    assert_eq!(world.downloads, 0);
    assert!(world.commands.is_empty());
}

#[test]
fn detailed_version_alone_selects_the_registry() {
    let mut world = World::new();
    world.publish("dep", "3.0.0", package("dep", "3.0.0"));
    let dep = Dependency::Detailed(DetailedDependency {
        version: Some("3.0.0".to_string()),
        ..detailed()
    });
    let top = with(package("top", "0.1.0"), "dep", dep);
    let set = world.resolve(&top).unwrap();
    assert_eq!(set.get("dep").unwrap().source, DependencySource::Registry);
}

#[test]
fn missing_path_is_not_found() {
    let mut world = World::new();
    let top = with(package("top", "0.1.0"), "dep", by_path("/nowhere"));
    let e = world.resolve(&top).err().unwrap();
    assert_eq!(e.kind, ErrorKind::NotFound);
    assert_eq!(e.dependency, "dep");
}

#[test]
fn missing_registry_package_is_not_found() {
    let mut world = World::new();
    let top = with(package("top", "0.1.0"), "dep", by_version("1.0.0"));
    let e = world.resolve(&top).err().unwrap();
    assert_eq!(e.kind, ErrorKind::NotFound);
}

#[test]
fn failed_download_is_a_fetch_error() {
    let mut world = World::new();
    world.publish("dep", "1.0.0", package("dep", "1.0.0"));
    world.fail_download = true;
    let top = with(package("top", "0.1.0"), "dep", by_version("1.0.0"));
    assert_eq!(world.resolve(&top).err().unwrap().kind, ErrorKind::FetchError);
}

#[test]
fn failed_clone_is_a_fetch_error() {
    let mut world = World::new();
    world.fail_commands = true;
    let top = with(package("top", "0.1.0"), "dep", by_git("https://host/dep"));
    assert_eq!(world.resolve(&top).err().unwrap().kind, ErrorKind::FetchError);
}

#[test]
fn failed_extraction_is_an_extract_error() {
    let mut world = World::new();
    world.publish("dep", "1.0.0", package("dep", "1.0.0"));
    world.fail_extract = true;
    let top = with(package("top", "0.1.0"), "dep", by_version("1.0.0"));
    assert_eq!(world.resolve(&top).err().unwrap().kind, ErrorKind::ExtractError);
}

#[test]
fn unreadable_manifest_is_a_parse_error() {
    let mut world = World::new();
    world.dirs.insert("/src/dep".to_string());
    let top = with(package("top", "0.1.0"), "dep", by_path("/src/dep"));
    assert_eq!(world.resolve(&top).err().unwrap().kind, ErrorKind::ParseError);
}

#[test]
fn invalid_manifest_is_a_parse_error() {
    let mut world = World::new();
    world.add_dir("/src/dep", package("dep", "1.0"));
    let top = with(package("top", "0.1.0"), "dep", by_path("/src/dep"));
    assert_eq!(world.resolve(&top).err().unwrap().kind, ErrorKind::ParseError);
}

#[test]
fn failure_deep_in_the_graph_fails_the_whole_resolution() {
    let mut world = World::new();
    world.publish("a", "1.0.0", with(package("a", "1.0.0"), "gone", by_version("1.0.0")));
    world.publish("b", "1.0.0", package("b", "1.0.0"));
    let top = with(with(package("top", "0.1.0"), "a", by_version("1.0.0")), "b", by_version("1.0.0"));
    let e = world.resolve(&top).err().unwrap();
    assert_eq!(e.kind, ErrorKind::NotFound);
    assert_eq!(e.dependency, "gone");
}

#[test]
fn development_dependencies_are_not_resolved() {
    let mut world = World::new();
    world.publish("a", "1.0.0", package("a", "1.0.0"));
    let mut top = with(package("top", "0.1.0"), "a", by_version("1.0.0"));
    top.dev_dependencies.insert("tool".to_string(), by_version("1.0.0"));
    let set = world.resolve(&top).unwrap();
    assert_eq!(set.all().len(), 1);
    assert!(!set.contains("tool"));
}

#[test]
fn record_is_named_by_its_manifest_and_kept_under_its_declared_name() {
    let mut world = World::new();
    world.add_dir("/src/lib", package("real-name", "2.1.0"));
    let top = with(package("top", "0.1.0"), "alias", by_path("/src/lib"));
    let set = world.resolve(&top).unwrap();
    assert!(set.contains("alias"));
    assert!(!set.contains("real-name"));
    let r = set.get("alias").unwrap();
    assert_eq!(r.name, "real-name");
    assert_eq!(r.version, "2.1.0");
    assert_eq!(r.manifest.package.name, "real-name");
}

#[test]
fn finished_and_failed_resolutions_stay_as_they_are() {
    let (mut done, _) = DependencyResolver::new("/c".to_string()).resolve(&package("top", "0.1.0"));
    assert!(matches!(done.step(Event::Done), Action::Finish));
    assert!(matches!(done.step(Event::Exists(true)), Action::Finish));
    let top = with(package("top", "0.1.0"), "dep", by_path("/nowhere"));
    let (mut state, _) = DependencyResolver::new("/c".to_string()).resolve(&top);
    assert!(matches!(state.step(Event::Exists(false)), Action::Fail(_)));
    match state.step(Event::Exists(true)) {
        Action::Fail(e) => assert_eq!(e.kind, ErrorKind::NotFound),
        _ => panic!("expected the failure again"),
    }
}

#[test]
fn answer_that_does_not_fit_fails_the_work_asked_for() {
    let top = with(package("top", "0.1.0"), "dep", by_version("1.0.0"));
    let (mut state, _) = DependencyResolver::new("/c".to_string()).resolve(&top);
    assert!(matches!(state.step(Event::Exists(false)), Action::Download { .. }));
    match state.step(Event::Done) {
        Action::Fail(e) => assert_eq!(e.kind, ErrorKind::FetchError),
        _ => panic!("expected a failure"),
    }
}

#[test]
fn download_names_the_package_and_extract_hands_the_archive_on() {
    let top = with(package("top", "0.1.0"), "dep", by_version("1.2.3"));
    let (mut state, first) = DependencyResolver::new("/c/".to_string()).resolve(&top);
    match first {
        Action::Probe { path } => assert_eq!(path, "/c/dep-1.2.3"),
        _ => panic!("expected a probe"),
    }
    match state.step(Event::Exists(false)) {
        Action::Download { name, version } => {
            assert_eq!(name, "dep");
            assert_eq!(version, "1.2.3");
        }
        _ => panic!("expected a download"),
    }
    match state.step(Event::Downloaded(vec![1, 2, 3])) {
        Action::Extract { archive, dest } => {
            assert_eq!(archive, vec![1, 2, 3]);
            assert_eq!(dest, "/c/dep-1.2.3");
        }
        _ => panic!("expected an extraction"),
    }
    match state.step(Event::Done) {
        Action::Load { path } => assert_eq!(path, "/c/dep-1.2.3/Quantum.toml"),
        _ => panic!("expected a load"),
    }
    assert!(matches!(state.step(Event::Loaded(package("dep", "1.2.3"))), Action::Finish));
    let set = state.into_resolved().unwrap();
    assert_eq!(set.all().len(), 1);
}

#[test]
fn cache_directory_lies_below_home() {
    assert_eq!(cache_dir_under("/home/me"), "/home/me/.quantum/cache");
    assert_eq!(cache_dir_under("/home/me/"), "/home/me/.quantum/cache");
    assert_eq!(DependencyResolver::new("/x".to_string()).cache_dir(), "/x");
}
