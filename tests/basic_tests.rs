use apm::lockfile;
use apm::manifest;

#[test]
fn test_lockfile_read_write() {
    // Create a new lockfile entry
    let mut lock = lockfile::Lockfile::new();
    lockfile::add_dependency(&mut lock, "test-package", "1.0.0");

    // Read it back
    let deps = lockfile::read_dependencies(&lock);

    // Check if it's there
    assert!(deps.contains_key("test-package"));
    assert_eq!(deps.get("test-package").unwrap(), "1.0.0");

    // Clean up
    lockfile::remove_dependency(&mut lock, "test-package");
    let deps_after = lockfile::read_dependencies(&lock);
    assert!(!deps_after.contains_key("test-package"));
}

#[test]
fn test_manifest_read_write() {
    // Create a test manifest
    let test_name = "test-project";
    let manifest = manifest::init(test_name);

    // Check values
    assert_eq!(manifest.name, test_name);
    assert_eq!(manifest.version, "0.1.0");

    // Clean up by overwriting
    let mut manifest = manifest;
    manifest.name = "cleanup".to_string();
    manifest::add_dependency(&mut manifest, "left-pad", "^1.3.0", false);
    assert_eq!(manifest.name, "cleanup");
    assert_eq!(manifest.version, "0.1.0");
    assert_eq!(
        manifest.description.as_deref(),
        Some("Package created with a package manager")
    );
}
