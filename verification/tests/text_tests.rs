use quantum_cli::manifest::{
    default_address_size, default_edition, default_opt_level, has_name_chars_only,
    is_valid_version, BuildConfig, Dependency, DetailedDependency, Manifest, ManifestError,
};
use quantum_cli::name_map::NameMap;
use quantum_cli::testing::{
    contains_text, extract_function_name, find_test_functions, lines, select_tests, split_words,
    trim, TestResults,
};
use quantum_cli::text::{
    join2, ends_with, join3, owned, parses_as_u32, same_text, split_on, starts_with,
};

#[test]
fn split_on_keeps_empty_pieces() {
    assert_eq!(split_on("1.2.3", '.'), vec!["1", "2", "3"]);
    assert_eq!(split_on("", '.'), vec![""]);
    assert_eq!(split_on(".", '.'), vec!["", ""]);
    assert_eq!(split_on("a..b.", '.'), vec!["a", "", "b", ""]);
    assert_eq!(split_on("abc", '.'), vec!["abc"]);
    for s in ["", "x", "a.b", "..", "é.ü", ".a."] {
        let want: Vec<String> = s.split('.').map(|p| p.to_string()).collect();
        assert_eq!(split_on(s, '.'), want);
    }
}

#[test]
fn parses_as_u32_agrees_with_the_standard_parser() {
    for s in [
        "0", "7", "42", "+5", "4294967295", "4294967296", "99999999999999999999", "", "+", "-1",
        "1a", " 1", "1 ", "0x10", "00012", "+0", "++1", "1_000", "٣",
    ] {
        assert_eq!(parses_as_u32(s), s.parse::<u32>().is_ok(), "{:?}", s);
    }
}

#[test]
fn version_has_three_numbers() {
    assert!(is_valid_version("10.20.30"));
    assert!(is_valid_version("+1.2.3"));
    assert!(is_valid_version("4294967295.0.0"));
    assert!(!is_valid_version("4294967296.0.0"));
    assert!(!is_valid_version(""));
    assert!(!is_valid_version("1..3"));
    assert!(!is_valid_version("1.2.x"));
    assert!(!is_valid_version("1.2.3-beta"));
    assert!(!is_valid_version("-1.2.3"));
}

#[test]
fn text_helpers_compare_and_join() {
    assert!(same_text("abc", "abc"));
    assert!(!same_text("abc", "abd"));
    assert!(!same_text("abc", "ab"));
    assert!(same_text("", ""));
    assert_eq!(owned("x"), "x");
    assert_eq!(join2("ab", "cd"), "abcd");
    assert_eq!(join3("a", "-", "b"), "a-b");
    assert!(starts_with("public fun x", "public fun "));
    assert!(!starts_with("pub", "public"));
    assert!(starts_with("abc", ""));
    assert!(ends_with("main.qm", ".qm"));
    assert!(!ends_with("main.qmx", ".qm"));
    assert!(!ends_with("m", ".qm"));
}

#[test]
fn name_map_keeps_first_place_and_last_value() {
    let mut m: NameMap<u32> = NameMap::new();
    assert!(m.is_empty());
    assert!(!m.insert("b".to_string(), 1));
    assert!(!m.insert("a".to_string(), 2));
    assert!(m.insert("b".to_string(), 3));
    assert_eq!(m.len(), 2);
    assert_eq!(m.get("b"), Some(&3));
    assert_eq!(m.get("a"), Some(&2));
    assert_eq!(m.get("c"), None);
    assert!(m.contains_key("a"));
    assert!(!m.contains_key("c"));
    assert_eq!(m.position("b"), Some(0));
    assert_eq!(m.position("a"), Some(1));
    assert_eq!(m.position("z"), None);
    let (k, v) = m.entry(0).unwrap();
    assert_eq!(k, "b");
    assert_eq!(*v, 3);
    assert!(m.entry(2).is_none());
}

fn valid() -> Manifest {
    let mut m = Manifest::new("pkg_name-1".to_string());
    m.build = BuildConfig { opt_level: 3, debug: true, address_size: 32 };
    m
}

#[test]
fn validate_names_the_first_broken_rule() {
    assert_eq!(valid().validate(), Ok(()));
    let mut m = valid();
    m.package.name = String::new();
    m.package.version = "x".to_string();
    assert_eq!(m.validate(), Err(ManifestError::EmptyName));
    let mut m = valid();
    m.package.name = "bad name".to_string();
    m.package.version = "x".to_string();
    assert_eq!(m.validate(), Err(ManifestError::InvalidName));
    let mut m = valid();
    m.package.version = "1.0".to_string();
    m.package.edition = "2021".to_string();
    assert_eq!(m.validate(), Err(ManifestError::InvalidVersion));
    let mut m = valid();
    m.package.edition = "2021".to_string();
    m.build.opt_level = 9;
    assert_eq!(m.validate(), Err(ManifestError::UnsupportedEdition));
    let mut m = valid();
    m.build.opt_level = 4;
    m.build.address_size = 16;
    assert_eq!(m.validate(), Err(ManifestError::InvalidOptLevel));
    let mut m = valid();
    m.build.address_size = 16;
    assert_eq!(m.validate(), Err(ManifestError::InvalidAddressSize));
    let mut m = valid();
    m.build.address_size = 64;
    m.build.opt_level = 0;
    assert_eq!(m.validate(), Ok(()));
}

#[test]
fn name_characters_follow_unicode() {
    assert!(has_name_chars_only("abc_DEF-123"));
    assert!(has_name_chars_only("grüße"));
    assert!(has_name_chars_only(""));
    assert!(!has_name_chars_only("a b"));
    assert!(!has_name_chars_only("a.b"));
    assert!(!has_name_chars_only("a/b"));
}

#[test]
fn defaults_of_a_manifest() {
    assert_eq!(default_edition(), "2024");
    assert_eq!(default_opt_level(), 2);
    assert_eq!(default_address_size(), 64);
    assert_eq!(BuildConfig::default(), BuildConfig { opt_level: 0, debug: false, address_size: 0 });
    let m = Manifest::new("n".to_string());
    assert!(m.package.authors.is_empty());
    assert_eq!(m.package.description, None);
    assert_eq!(m.package.license, None);
    assert_eq!(m.package.repository, None);
    assert_eq!(m.package.homepage, None);
    assert!(m.dependencies.is_empty());
    assert!(m.dev_dependencies.is_empty());
}

#[test]
fn all_dependencies_prefers_development_declarations() {
    let mut m = Manifest::new("n".to_string());
    m.dependencies.insert("a".to_string(), Dependency::Simple("1.0.0".to_string()));
    m.dependencies.insert("b".to_string(), Dependency::Simple("2.0.0".to_string()));
    m.dev_dependencies.insert("b".to_string(), Dependency::Simple("9.0.0".to_string()));
    m.dev_dependencies.insert("c".to_string(), Dependency::Simple("3.0.0".to_string()));
    let all = m.all_dependencies();
    assert_eq!(all.len(), 3);
    let version = |name: &str| match all.get(name) {
        Some(Dependency::Simple(v)) => v.clone(),
        _ => String::new(),
    };
    assert_eq!(version("a"), "1.0.0");
    assert_eq!(version("b"), "9.0.0");
    assert_eq!(version("c"), "3.0.0");
    assert!(all.get("d").is_none());
}

#[test]
fn copies_keep_what_they_copy() {
    let mut m = valid();
    m.package.authors.push("me".to_string());
    m.package.description = Some("d".to_string());
    m.dependencies.insert(
        "x".to_string(),
        Dependency::Detailed(DetailedDependency {
            version: None,
            git: Some("u".to_string()),
            branch: None,
            tag: Some("t".to_string()),
            rev: None,
            path: None,
            registry: Some("r".to_string()),
        }),
    );
    let c = m.duplicate();
    assert_eq!(c.package.name, m.package.name);
    assert_eq!(c.package.authors, vec!["me"]);
    assert_eq!(c.package.description.as_deref(), Some("d"));
    assert_eq!(c.build, m.build);
    match c.dependencies.get("x") {
        Some(Dependency::Detailed(d)) => {
            assert_eq!(d.git.as_deref(), Some("u"));
            assert_eq!(d.tag.as_deref(), Some("t"));
            assert_eq!(d.registry.as_deref(), Some("r"));
            assert_eq!(d.branch, None);
        }
        _ => panic!("expected the detailed declaration"),
    }
}

#[test]
fn trim_agrees_with_the_standard_library() {
    for s in ["", " ", "a", "  a b  ", "\t#[test]\r", "\u{a0}x\u{2003}", "x\n", " \n\t "] {
        assert_eq!(trim(s), s.trim(), "{:?}", s);
    }
}

#[test]
fn words_agree_with_the_standard_library() {
    for s in ["", " ", "a", "fun  foo() {", " public fun a(b: u8) ", "a\tb\nc", "x\u{a0}y", "ab"] {
        let want: Vec<String> = s.split_whitespace().map(|p| p.to_string()).collect();
        assert_eq!(split_words(s), want, "{:?}", s);
    }
}

#[test]
fn lines_agree_with_the_standard_library() {
    for s in ["", "a", "a\n", "a\nb", "a\r\nb\r\n", "a\r", "\n", "\n\n", "a\n\nb", "\r\n", "a\r\r\n", "x\ny\r"] {
        let want: Vec<String> = s.lines().map(|p| p.to_string()).collect();
        assert_eq!(lines(s), want, "{:?}", s);
    }
}

#[test]
fn function_name_is_the_word_after_fun() {
    assert_eq!(extract_function_name("fun test_a() {"), Some("test_a".to_string()));
    assert_eq!(extract_function_name("public fun test_b(x: u64) {"), Some("test_b".to_string()));
    assert_eq!(extract_function_name("public fun test_c()"), Some("test_c".to_string()));
    assert_eq!(extract_function_name("fun test_d()"), None);
    assert_eq!(extract_function_name("fun  spaced () {"), Some("spaced".to_string()));
    assert_eq!(extract_function_name("struct X {"), None);
    assert_eq!(extract_function_name("function test() {"), None);
    assert_eq!(extract_function_name(""), None);
    assert_eq!(extract_function_name("fun (x) y"), Some("".to_string()));
    assert_eq!(extract_function_name("public fun"), None);
}

#[test]
fn test_functions_follow_the_attribute() {
    let source = "module m {\n    #[test]\n    fun test_one() {\n    }\n\n  #[test]\r\n  public fun test_two(x: u8) {\n  }\n    #[test]\n    struct S {}\n    fun helper() {\n    }\n    #[test]";
    assert_eq!(find_test_functions(source), vec!["test_one", "test_two"]);
    assert!(find_test_functions("").is_empty());
    assert!(find_test_functions("#[test]").is_empty());
    assert!(find_test_functions("#[test]\n").is_empty());
    assert_eq!(find_test_functions("#[test]\nfun a() {"), vec!["a"]);
    assert_eq!(find_test_functions("#[test]\n#[test]\nfun a() {"), vec!["a"]);
}

#[test]
fn filter_selects_names_that_hold_it() {
    assert!(contains_text("test_transfer", "transfer"));
    assert!(contains_text("abc", ""));
    assert!(contains_text("", ""));
    assert!(contains_text("abc", "abc"));
    assert!(!contains_text("abc", "abcd"));
    assert!(!contains_text("abc", "ac"));
    assert!(contains_text("aab", "ab"));
    let tests = vec!["test_a".to_string(), "check_b".to_string(), "test_c".to_string()];
    assert_eq!(select_tests(tests.clone(), Some("test")), vec!["test_a", "test_c"]);
    assert_eq!(select_tests(tests.clone(), None), tests);
    assert!(select_tests(tests.clone(), Some("zzz")).is_empty());
}

#[test]
fn results_add_up() {
    let r = TestResults::new(3, 2).unwrap();
    assert_eq!(r.passed, 3);
    assert_eq!(r.failed, 2);
    assert_eq!(r.total, 5);
    assert!(!r.is_success());
    assert!(TestResults::new(4, 0).unwrap().is_success());
    assert_eq!(TestResults::new(usize::MAX, 1), None);
    assert_eq!(TestResults::new(usize::MAX, 0).unwrap().total, usize::MAX);
}
