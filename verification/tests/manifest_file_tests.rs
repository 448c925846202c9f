use quantum_cli::manifest::{BuildConfig, Dependency, DetailedDependency, Manifest, ManifestError};
use quantum_cli::package::Package;
use quantum_cli::resolver::Event;

const FULL: &str = r#"
[package]
name = "token"
version = "1.2.3"
authors = ["Ann", "Ben"]
description = "A token"
license = "MIT"
repository = "https://example.org/token"
homepage = "https://example.org"
edition = "2024"

[dependencies]
std = "1.0.0"
math = { version = "0.3.0", registry = "https://r.example" }
local = { path = "../local" }
remote = { git = "https://example.org/remote.git", branch = "main", tag = "v1", rev = "abc" }

[dev-dependencies]
testkit = "0.1.0"

[build]
opt_level = 3
debug = true
address_size = 32

[unknown]
key = 1
"#;

fn simple(m: &Manifest, name: &str) -> String {
    match m.dependencies.get(name) {
        Some(Dependency::Simple(v)) => v.clone(),
        _ => panic!("expected a bare version"),
    }
}

fn detailed<'a>(m: &'a Manifest, name: &str) -> &'a DetailedDependency {
    match m.dependencies.get(name) {
        Some(Dependency::Detailed(d)) => d,
        _ => panic!("expected a detailed declaration"),
    }
}

#[test]
fn reads_every_field_of_a_manifest() {
    let m = Manifest::from_toml(FULL).unwrap();
    assert_eq!(m.package.name, "token");
    assert_eq!(m.package.version, "1.2.3");
    assert_eq!(m.package.authors, vec!["Ann", "Ben"]);
    assert_eq!(m.package.description.as_deref(), Some("A token"));
    assert_eq!(m.package.license.as_deref(), Some("MIT"));
    assert_eq!(m.package.repository.as_deref(), Some("https://example.org/token"));
    assert_eq!(m.package.homepage.as_deref(), Some("https://example.org"));
    assert_eq!(m.package.edition, "2024");
    assert_eq!(m.dependencies.len(), 4);
    assert_eq!(simple(&m, "std"), "1.0.0");
    let math = detailed(&m, "math");
    assert_eq!(math.version.as_deref(), Some("0.3.0"));
    assert_eq!(math.registry.as_deref(), Some("https://r.example"));
    assert_eq!(math.git, None);
    assert_eq!(detailed(&m, "local").path.as_deref(), Some("../local"));
    let remote = detailed(&m, "remote");
    assert_eq!(remote.git.as_deref(), Some("https://example.org/remote.git"));
    assert_eq!(remote.branch.as_deref(), Some("main"));
    assert_eq!(remote.tag.as_deref(), Some("v1"));
    assert_eq!(remote.rev.as_deref(), Some("abc"));
    assert_eq!(m.dev_dependencies.len(), 1);
    assert!(m.dev_dependencies.contains_key("testkit"));
    assert_eq!(m.build, BuildConfig { opt_level: 3, debug: true, address_size: 32 });
}

#[test]
fn absent_fields_take_their_defaults() {
    let m = Manifest::from_toml("[package]\nname = \"a\"\nversion = \"0.1.0\"\n[build]\n").unwrap();
    assert!(m.package.authors.is_empty());
    assert_eq!(m.package.description, None);
    assert_eq!(m.package.edition, "2024");
    assert!(m.dependencies.is_empty());
    assert!(m.dev_dependencies.is_empty());
    assert_eq!(m.build, BuildConfig { opt_level: 2, debug: false, address_size: 64 });
}

#[test]
fn manifest_without_build_table_has_unset_build_settings() {
    let r = Manifest::from_toml("[package]\nname = \"a\"\nversion = \"0.1.0\"\n");
    assert_eq!(r.err(), Some(ManifestError::InvalidAddressSize));
}

#[test]
fn text_that_is_no_document_is_a_syntax_error() {
    assert_eq!(Manifest::from_toml("[package").err(), Some(ManifestError::Syntax));
    assert_eq!(Manifest::from_toml("name = ").err(), Some(ManifestError::Syntax));
}

#[test]
fn document_that_is_no_manifest_is_a_shape_error() {
    let shape = |text: &str| assert_eq!(Manifest::from_toml(text).err(), Some(ManifestError::Shape), "{}", text);
    shape("");
    shape("package = 1\n");
    shape("[package]\nname = \"a\"\n");
    shape("[package]\nversion = \"0.1.0\"\n");
    shape("[package]\nname = 7\nversion = \"0.1.0\"\n");
    shape("[package]\nname = \"a\"\nversion = \"0.1.0\"\nauthors = \"me\"\n");
    shape("[package]\nname = \"a\"\nversion = \"0.1.0\"\nauthors = [\"me\", 3]\n");
    shape("[package]\nname = \"a\"\nversion = \"0.1.0\"\nlicense = false\n");
    shape("[package]\nname = \"a\"\nversion = \"0.1.0\"\nedition = 2024\n");
    shape("dependencies = 3\n[package]\nname = \"a\"\nversion = \"0.1.0\"\n");
    shape("[package]\nname = \"a\"\nversion = \"0.1.0\"\n[dependencies]\nx = 1\n");
    shape("[package]\nname = \"a\"\nversion = \"0.1.0\"\n[dependencies]\nx = { path = 1 }\n");
    shape("[package]\nname = \"a\"\nversion = \"0.1.0\"\n[dev-dependencies]\nx = [1]\n");
    shape("build = \"fast\"\n[package]\nname = \"a\"\nversion = \"0.1.0\"\n");
    shape("[package]\nname = \"a\"\nversion = \"0.1.0\"\n[build]\nopt_level = 256\n");
    shape("[package]\nname = \"a\"\nversion = \"0.1.0\"\n[build]\nopt_level = -1\n");
    shape("[package]\nname = \"a\"\nversion = \"0.1.0\"\n[build]\ndebug = 1\n");
    shape("[package]\nname = \"a\"\nversion = \"0.1.0\"\n[build]\naddress_size = \"64\"\n");
}

#[test]
fn rules_are_checked_after_reading() {
    let with = |package: &str, build: &str| format!("[package]\n{}\n[build]\n{}\n", package, build);
    let check = |text: String, e: ManifestError| assert_eq!(Manifest::from_toml(&text).err(), Some(e));
    check(with("name = \"\"\nversion = \"0.1.0\"", ""), ManifestError::EmptyName);
    check(with("name = \"a b\"\nversion = \"0.1.0\"", ""), ManifestError::InvalidName);
    check(with("name = \"a\"\nversion = \"0.1\"", ""), ManifestError::InvalidVersion);
    check(
        with("name = \"a\"\nversion = \"0.1.0\"\nedition = \"2021\"", ""),
        ManifestError::UnsupportedEdition,
    );
    check(with("name = \"a\"\nversion = \"0.1.0\"", "opt_level = 4"), ManifestError::InvalidOptLevel);
    check(
        with("name = \"a\"\nversion = \"0.1.0\"", "address_size = 16"),
        ManifestError::InvalidAddressSize,
    );
}

#[test]
fn manifest_round_trips_through_text() {
    let m = Manifest::from_toml(FULL).unwrap();
    let text = m.to_toml().unwrap();
    let back = Manifest::from_toml(&text).unwrap();
    assert_eq!(back.package.name, "token");
    assert_eq!(back.package.authors, vec!["Ann", "Ben"]);
    assert_eq!(back.package.homepage.as_deref(), Some("https://example.org"));
    assert_eq!(back.dependencies.len(), 4);
    assert_eq!(simple(&back, "std"), "1.0.0");
    let remote = detailed(&back, "remote");
    assert_eq!(remote.branch.as_deref(), Some("main"));
    assert_eq!(remote.rev.as_deref(), Some("abc"));
    assert_eq!(remote.path, None);
    assert_eq!(back.dev_dependencies.len(), 1);
    assert_eq!(back.build, m.build);
}

#[test]
fn fresh_manifest_is_written_with_its_unset_build_settings() {
    let m = Manifest::new("test_package".to_string());
    let text = m.to_toml().unwrap();
    assert!(text.contains("name = \"test_package\""));
    assert!(text.contains("version = \"0.1.0\""));
    assert!(text.contains("edition = \"2024\""));
    assert!(text.contains("authors = []"));
    assert!(text.contains("address_size = 0"));
    assert!(!text.contains("description"));
    assert_eq!(Manifest::from_toml(&text).err(), Some(ManifestError::InvalidAddressSize));
    let table = m.to_table();
    assert!(table.get("package").and_then(|v| v.as_table()).is_some());
    assert!(table.get("dev-dependencies").and_then(|v| v.as_table()).unwrap().is_empty());
    let back = Manifest::from_table(&table).unwrap();
    assert_eq!(back.package.name, "test_package");
}

#[test]
fn load_event_carries_the_manifest_or_the_failure() {
    match Event::from_manifest_text(Some(FULL)) {
        Event::Loaded(m) => assert_eq!(m.package.name, "token"),
        _ => panic!("expected the manifest"),
    }
    assert!(matches!(Event::from_manifest_text(None), Event::Failed));
    assert!(matches!(Event::from_manifest_text(Some("[package")), Event::Failed));
    assert!(matches!(
        Event::from_manifest_text(Some("[package]\nname = \"a\"\nversion = \"1\"\n[build]\n")),
        Event::Failed
    ));
}

#[test]
fn package_is_loaded_from_the_text_of_its_manifest() {
    let p = Package::load("/work/token".to_string(), Some(FULL)).unwrap();
    assert_eq!(p.root, "/work/token");
    assert_eq!(p.name(), "token");
    assert_eq!(p.version(), "1.2.3");
    assert_eq!(Package::load("/w".to_string(), None).err(), Some(ManifestError::NotFound));
    assert_eq!(Package::load("/w".to_string(), Some("[")).err(), Some(ManifestError::Syntax));
    assert_eq!(Package::load("/w".to_string(), Some("x = 1")).err(), Some(ManifestError::Shape));
}
