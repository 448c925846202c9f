use quantum_cli::dependency::{DependencyInfo, DependencySource, ResolvedDependencies};
use quantum_cli::lockfile::{source_name, LockedDependency, Lockfile, LockfileError};
use quantum_cli::manifest::Manifest;

fn info(name: &str, version: &str, source: DependencySource) -> DependencyInfo {
    let mut manifest = Manifest::new(name.to_string());
    manifest.package.version = version.to_string();
    DependencyInfo::from_manifest(format!("/cache/{}", name), manifest, source)
}

fn sample() -> ResolvedDependencies {
    let mut set = ResolvedDependencies::new();
    set.add("alpha".to_string(), info("alpha", "1.0.0", DependencySource::Registry));
    set.add("beta".to_string(), info("beta-pkg", "0.2.1", DependencySource::Path));
    set.add("gamma".to_string(), info("gamma", "3.4.5", DependencySource::Git));
    set
}

#[test]
fn new_lockfile_is_version_one_and_empty() {
    let l = Lockfile::new();
    assert_eq!(l.version, 1);
    assert_eq!(l.dependencies.len(), 0);
    let d = Lockfile::default();
    assert_eq!(d.version, 1);
    assert!(d.dependencies.is_empty());
}

#[test]
fn source_names_are_the_three_words() {
    assert_eq!(source_name(DependencySource::Registry), "registry");
    assert_eq!(source_name(DependencySource::Path), "path");
    assert_eq!(source_name(DependencySource::Git), "git");
}

#[test]
fn from_resolved_has_one_entry_per_record() {
    let l = Lockfile::from_resolved(&sample());
    assert_eq!(l.version, 1);
    assert_eq!(l.dependencies.len(), 3);
    let b = l.dependencies.get("beta").unwrap();
    assert_eq!(b.name, "beta-pkg");
    assert_eq!(b.version, "0.2.1");
    assert_eq!(b.source, "path");
    assert_eq!(b.source_url, None);
    assert_eq!(b.checksum, None);
    let g = l.dependencies.get("gamma").unwrap();
    assert_eq!(g.source, "git");
    let a = l.dependencies.get("alpha").unwrap();
    assert_eq!(a.source, "registry");
    assert!(l.dependencies.get("delta").is_none());
}

#[test]
fn from_resolved_of_empty_set_is_empty() {
    let l = Lockfile::from_resolved(&ResolvedDependencies::new());
    assert_eq!(l.version, 1);
    assert_eq!(l.dependencies.len(), 0);
}

#[test]
fn lockfile_round_trips_through_text() {
    let l = Lockfile::from_resolved(&sample());
    let text = l.to_toml().unwrap();
    let back = Lockfile::from_toml(&text).unwrap();
    assert_eq!(back.version, 1);
    assert_eq!(back.dependencies.len(), 3);
    for key in ["alpha", "beta", "gamma"] {
        let want = l.dependencies.get(key).unwrap();
        let got = back.dependencies.get(key).unwrap();
        assert_eq!(got.name, want.name);
        assert_eq!(got.version, want.version);
        assert_eq!(got.source, want.source);
        assert_eq!(got.source_url, None);
        assert_eq!(got.checksum, None);
    }
}

#[test]
fn populated_optional_fields_round_trip() {
    let mut l = Lockfile::new();
    l.version = 7;
    l.dependencies.insert(
        "dep".to_string(),
        LockedDependency {
            name: "dep".to_string(),
            version: "1.2.3".to_string(),
            source: "git".to_string(),
            source_url: Some("https://example.org/dep.git".to_string()),
            checksum: Some("abc123".to_string()),
        },
    );
    let text = l.to_toml().unwrap();
    let back = Lockfile::from_toml(&text).unwrap();
    assert_eq!(back.version, 7);
    let got = back.dependencies.get("dep").unwrap();
    assert_eq!(got.source_url.as_deref(), Some("https://example.org/dep.git"));
    assert_eq!(got.checksum.as_deref(), Some("abc123"));
}

#[test]
fn written_text_holds_the_fields() {
    let mut set = ResolvedDependencies::new();
    set.add("alpha".to_string(), info("alpha", "1.0.0", DependencySource::Registry));
    let text = Lockfile::from_resolved(&set).to_toml().unwrap();
    assert!(text.contains("version = 1"));
    assert!(text.contains("[dependencies.alpha]"));
    assert!(text.contains("name = \"alpha\""));
    assert!(text.contains("version = \"1.0.0\""));
    assert!(text.contains("source = \"registry\""));
    assert!(!text.contains("checksum"));
}

#[test]
fn reads_a_hand_written_lockfile() {
    let text = "version = 1\n\n[dependencies.foo]\nname = \"foo\"\nversion = \"0.3.0\"\nsource = \"path\"\nchecksum = \"ff\"\nextra = 5\n";
    let l = Lockfile::from_toml(text).unwrap();
    assert_eq!(l.version, 1);
    let foo = l.dependencies.get("foo").unwrap();
    assert_eq!(foo.name, "foo");
    assert_eq!(foo.version, "0.3.0");
    assert_eq!(foo.source, "path");
    assert_eq!(foo.source_url, None);
    assert_eq!(foo.checksum.as_deref(), Some("ff"));
}

#[test]
fn empty_dependencies_table_round_trips() {
    let text = Lockfile::new().to_toml().unwrap();
    let back = Lockfile::from_toml(&text).unwrap();
    assert_eq!(back.version, 1);
    assert_eq!(back.dependencies.len(), 0);
}

#[test]
fn malformed_text_is_a_parse_error() {
    assert_eq!(Lockfile::from_toml("version = ").err(), Some(LockfileError::ParseError));
    assert_eq!(Lockfile::from_toml("[[[").err(), Some(LockfileError::ParseError));
}

#[test]
fn wrong_shape_is_a_parse_error() {
    // no dependencies table
    assert_eq!(Lockfile::from_toml("version = 1\n").err(), Some(LockfileError::ParseError));
    // no version
    assert_eq!(Lockfile::from_toml("[dependencies]\n").err(), Some(LockfileError::ParseError));
    // version is not an integer
    assert_eq!(
        Lockfile::from_toml("version = \"1\"\n[dependencies]\n").err(),
        Some(LockfileError::ParseError)
    );
    // version does not fit 32 bits
    assert_eq!(
        Lockfile::from_toml("version = 4294967296\n[dependencies]\n").err(),
        Some(LockfileError::ParseError)
    );
    assert_eq!(
        Lockfile::from_toml("version = -1\n[dependencies]\n").err(),
        Some(LockfileError::ParseError)
    );
    // an entry lacks its source
    assert_eq!(
        Lockfile::from_toml("version = 1\n[dependencies.a]\nname = \"a\"\nversion = \"1.0.0\"\n").err(),
        Some(LockfileError::ParseError)
    );
    // an optional field of the wrong type
    assert_eq!(
        Lockfile::from_toml(
            "version = 1\n[dependencies.a]\nname = \"a\"\nversion = \"1.0.0\"\nsource = \"git\"\nchecksum = 3\n"
        )
        .err(),
        Some(LockfileError::ParseError)
    );
    // an entry that is no table
    assert_eq!(
        Lockfile::from_toml("version = 1\n[dependencies]\na = \"1.0.0\"\n").err(),
        Some(LockfileError::ParseError)
    );
}

#[test]
fn largest_version_is_read() {
    let l = Lockfile::from_toml("version = 4294967295\n[dependencies]\n").unwrap();
    assert_eq!(l.version, 4294967295);
}

#[test]
fn table_form_matches_the_toml_library() {
    let l = Lockfile::from_resolved(&sample());
    let table = l.to_table();
    assert_eq!(table.get("version").and_then(|v| v.as_integer()), Some(1));
    let deps = table.get("dependencies").and_then(|v| v.as_table()).unwrap();
    assert_eq!(deps.len(), 3);
    let alpha = deps.get("alpha").and_then(|v| v.as_table()).unwrap();
    assert_eq!(alpha.get("name").and_then(|v| v.as_str()), Some("alpha"));
    assert_eq!(alpha.len(), 3);
    let back = Lockfile::from_table(&table).unwrap();
    assert_eq!(back.dependencies.len(), 3);
}
