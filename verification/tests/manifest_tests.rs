use quantum_cli::manifest::{is_valid_version, Manifest, ManifestError};

#[test]
fn test_manifest_creation() {
    let manifest = Manifest::new("test_package".to_string());
    assert_eq!(manifest.package.name, "test_package");
    assert_eq!(manifest.package.version, "0.1.0");
    assert_eq!(manifest.package.edition, "2024");
}

#[test]
fn test_version_validation() {
    assert!(is_valid_version("0.1.0"));
    assert!(is_valid_version("1.2.3"));
    assert!(!is_valid_version("1.2"));
    assert!(!is_valid_version("1.2.3.4"));
    assert!(!is_valid_version("abc"));
}

#[test]
fn fresh_manifest_has_unset_build_settings() {
    let manifest = Manifest::new("demo".to_string());
    assert_eq!(manifest.build.opt_level, 0);
    assert!(!manifest.build.debug);
    assert_eq!(manifest.build.address_size, 0);
    assert_eq!(manifest.validate(), Err(ManifestError::InvalidAddressSize));
}
