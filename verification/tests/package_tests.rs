use quantum_cli::fetch::{
    checkout_args, clone_args, git_cache_key, git_ref, join_path, registry_cache_key,
    sanitize_ref, sanitize_url, select_plan, CacheStore, FetchPlan,
};
use quantum_cli::dependency::DependencySource;
use quantum_cli::manifest::{Dependency, DetailedDependency, Manifest, ManifestError};
use quantum_cli::package::{is_source_file, is_source_path, Package};
use quantum_cli::registry::{
    default_registry_url, download_url, publish_request, publish_url, registry_url, search_url,
    PackageInfo,
};
use quantum_cli::resolver::directory_of;
use quantum_cli::scaffold::{
    check_package_name, check_publishable, gitignore_source, main_module_source, readme_source,
    PublishError,
};

fn package() -> Package {
    Package { root: "/work/demo".to_string(), manifest: Manifest::new("demo".to_string()) }
}

#[test]
fn package_directories_lie_below_the_root() {
    let p = package();
    assert_eq!(p.src_dir(), "/work/demo/src");
    assert_eq!(p.build_dir(true), "/work/demo/build/release");
    assert_eq!(p.build_dir(false), "/work/demo/build/debug");
    assert_eq!(p.manifest_path(), "/work/demo/Quantum.toml");
    assert_eq!(p.name(), "demo");
    assert_eq!(p.version(), "0.1.0");
}

#[test]
fn join_path_follows_the_rules_of_paths() {
    assert_eq!(join_path("/a", "b"), "/a/b");
    assert_eq!(join_path("/a/", "b"), "/a/b");
    assert_eq!(join_path("", "b"), "b");
    assert_eq!(join_path("/a", "/b"), "/b");
    assert_eq!(join_path("a", ""), "a/");
    assert_eq!(join_path("/", "x"), "/x");
    for (base, part) in [("/a", "b"), ("/a/", "b"), ("", "b"), ("/a", "/b"), ("a", ""), ("/", "x"), ("rel", "x/y")] {
        let want = std::path::Path::new(base).join(part);
        assert_eq!(join_path(base, part), want.to_str().unwrap(), "{:?} {:?}", base, part);
    }
}

#[test]
fn source_files_end_in_qm() {
    assert!(is_source_file("main.qm"));
    assert!(is_source_file("a.qm"));
    assert!(is_source_file("..qm"));
    assert!(!is_source_file(".qm"));
    assert!(!is_source_file("main.qmx"));
    assert!(!is_source_file("main"));
    assert!(!is_source_file("qm"));
    assert!(!is_source_file(""));
    for name in ["main.qm", "a.qm", "..qm", ".qm", "main.qmx", "main", "qm", "x.y.qm", "a.QM"] {
        let want = std::path::Path::new(name).extension().and_then(|s| s.to_str()) == Some("qm");
        assert_eq!(is_source_file(name), want, "{:?}", name);
    }
}

#[test]
fn registry_addresses() {
    assert_eq!(default_registry_url(), "https://registry.silverbitcoin.org");
    assert_eq!(registry_url(None), "https://registry.silverbitcoin.org");
    assert_eq!(registry_url(Some("http://localhost:8080")), "http://localhost:8080");
    assert_eq!(publish_url("http://r"), "http://r/api/v1/packages/publish");
    assert_eq!(download_url("http://r", "pkg", "1.2.3"), "http://r/api/v1/packages/pkg/1.2.3/download");
    assert_eq!(search_url("http://r", "token"), "http://r/api/v1/packages/search?q=token");
    let info = PackageInfo {
        name: "n".to_string(),
        version: "1.0.0".to_string(),
        description: None,
        downloads: 3,
    };
    assert_eq!(info.downloads, 3);
}

#[test]
fn publish_request_carries_the_archive_in_base64() {
    let mut p = package();
    p.manifest.package.description = Some("a demo".to_string());
    p.manifest.package.license = Some("MIT".to_string());
    let r = publish_request(&p, &b"hello world~".to_vec());
    assert_eq!(r.name, "demo");
    assert_eq!(r.version, "0.1.0");
    assert_eq!(r.description.as_deref(), Some("a demo"));
    assert_eq!(r.license.as_deref(), Some("MIT"));
    assert_eq!(r.repository, None);
    assert_eq!(r.archive_data, "aGVsbG8gd29ybGR+");
    assert_eq!(publish_request(&p, &vec![]).archive_data, "");
    assert_eq!(publish_request(&p, &vec![0]).archive_data, "AA==");
    assert_eq!(publish_request(&p, &vec![255, 254]).archive_data, "//4=");
}

#[test]
fn publishing_needs_description_license_and_sources() {
    let mut p = package();
    assert_eq!(check_publishable(&p, 0), Err(PublishError::MissingDescription));
    p.manifest.package.description = Some("d".to_string());
    assert_eq!(check_publishable(&p, 0), Err(PublishError::MissingLicense));
    p.manifest.package.license = Some("MIT".to_string());
    assert_eq!(check_publishable(&p, 0), Err(PublishError::NoSourceFiles));
    assert_eq!(check_publishable(&p, 2), Ok(()));
}

#[test]
fn package_names_are_checked() {
    assert_eq!(check_package_name("test_package"), Ok(()));
    assert_eq!(check_package_name("a-b_c9"), Ok(()));
    assert_eq!(check_package_name(""), Err(ManifestError::EmptyName));
    assert_eq!(check_package_name("a b"), Err(ManifestError::InvalidName));
    assert_eq!(check_package_name("../x"), Err(ManifestError::InvalidName));
}

#[test]
fn new_package_files_name_the_package() {
    let main = main_module_source("test_package");
    assert!(main.starts_with("// test_package - Main module\n//\n"));
    assert!(main.contains("\nmodule test_package::main {\n"));
    assert!(main.contains("    public fun get_value(obj: &ExampleObject): u64 {\n"));
    assert!(main.ends_with("        obj.value\n    }\n}\n"));
    let readme = readme_source("test_package");
    assert!(readme.starts_with("# test_package\n\nA Quantum smart contract package.\n"));
    assert!(readme.ends_with("```bash\nquantum publish\n```\n"));
    assert_eq!(gitignore_source(), "/build\n/target\n*.swp\n*.swo\n*~\n.DS_Store\n");
}

fn detailed() -> DetailedDependency {
    DetailedDependency {
        version: None,
        git: None,
        branch: None,
        tag: None,
        rev: None,
        path: None,
        registry: None,
    }
}

#[test]
fn cache_keys() {
    assert_eq!(registry_cache_key("serde", "1.0.0"), "serde-1.0.0");
    assert_eq!(sanitize_url("https://github.com/a/b.git"), "https___github.com_a_b.git");
    assert_eq!(sanitize_url("git@host:a/b"), "git@host_a_b");
    assert_eq!(sanitize_ref("feature/x/y"), "feature_x_y");
    assert_eq!(sanitize_ref("a:b"), "a:b");
    let none: Option<String> = None;
    assert_eq!(git_ref(&none, &none, &none), "HEAD");
    assert_eq!(git_ref(&Some("b".to_string()), &Some("t".to_string()), &Some("r".to_string())), "b");
    assert_eq!(git_ref(&none, &Some("t".to_string()), &Some("r".to_string())), "t");
    assert_eq!(git_ref(&none, &none, &Some("r".to_string())), "r");
    assert_eq!(git_cache_key("https://h/r", &none, &none, &none), "https___h_r-HEAD");
    assert_eq!(
        git_cache_key("https://h/r", &none, &Some("v/1".to_string()), &none),
        "https___h_r-v_1"
    );
    for (url, reference) in [("https://h/r", "main"), ("a:b/c", "x/y"), ("", "")] {
        assert_eq!(sanitize_url(url), url.replace(['/', ':'], "_"));
        assert_eq!(sanitize_ref(reference), reference.replace('/', "_"));
    }
}

#[test]
fn plans_follow_the_precedence() {
    match select_plan(&Dependency::Simple("1.0.0".to_string())) {
        Some(FetchPlan::Registry { version }) => assert_eq!(version, "1.0.0"),
        _ => panic!("expected the registry"),
    }
    assert!(select_plan(&Dependency::Detailed(detailed())).is_none());
    let only_extras = DetailedDependency {
        branch: Some("b".to_string()),
        tag: Some("t".to_string()),
        rev: Some("r".to_string()),
        registry: Some("x".to_string()),
        ..detailed()
    };
    assert!(select_plan(&Dependency::Detailed(only_extras)).is_none());
    let git = DetailedDependency {
        git: Some("u".to_string()),
        version: Some("1.0.0".to_string()),
        rev: Some("r".to_string()),
        ..detailed()
    };
    let plan = select_plan(&Dependency::Detailed(git)).unwrap();
    assert_eq!(plan.source(), DependencySource::Git);
    assert!(plan.has_rev());
    assert_eq!(directory_of(&CacheStore::new("/c".to_string()), "n", &plan), "/c/u-r");
    let copy = plan.clone();
    assert_eq!(copy.source(), DependencySource::Git);
    let path = DetailedDependency { path: Some("/p".to_string()), git: Some("u".to_string()), ..detailed() };
    let plan = select_plan(&Dependency::Detailed(path)).unwrap();
    assert_eq!(plan.source(), DependencySource::Path);
    assert!(!plan.has_rev());
    assert_eq!(directory_of(&CacheStore::new("/c".to_string()), "n", &plan), "/p");
}

#[test]
fn git_commands() {
    assert_eq!(clone_args("u", &None, "/d"), vec!["clone", "u", "/d"]);
    assert_eq!(
        clone_args("u", &Some("main".to_string()), "/d"),
        vec!["clone", "--branch", "main", "u", "/d"]
    );
    assert_eq!(checkout_args("/d", "abc"), vec!["-C", "/d", "checkout", "abc"]);
}

#[test]
fn cache_store_maps_identities_to_directories() {
    let cache = CacheStore::new("/home/me/.quantum/cache".to_string());
    assert_eq!(cache.root(), "/home/me/.quantum/cache");
    assert_eq!(cache.path_for("serde-1.0.0"), "/home/me/.quantum/cache/serde-1.0.0");
    assert_eq!(cache.duplicate().path_for("x"), "/home/me/.quantum/cache/x");
    assert_eq!(CacheStore::new("/c/".to_string()).path_for("x"), "/c/x");
}

#[test]
fn source_files_are_picked_by_their_file_names() {
    let p = package();
    let found = vec![
        "/work/demo/src/main.qm".to_string(),
        "/work/demo/src/notes.txt".to_string(),
        "/work/demo/src/dir.qm/readme".to_string(),
        "/work/demo/src/sub/lib.qm".to_string(),
        "/work/demo/src/.qm".to_string(),
        "plain.qm".to_string(),
    ];
    assert_eq!(
        p.source_files(found),
        vec!["/work/demo/src/main.qm", "/work/demo/src/sub/lib.qm", "plain.qm"]
    );
    assert!(p.source_files(Vec::new()).is_empty());
    assert!(is_source_path("a/b.qm"));
    assert!(!is_source_path("a.qm/b"));
    assert!(!is_source_path(""));
}
