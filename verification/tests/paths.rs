use std::path::Path;

use cargo_soteria::common::{
    aside_dir, installed_tool, package_dir, path_join, soteria_base_dir, staging_dir, version_file, version_name_file, RELEASE_DIR,
};
use cargo_soteria::release::{read_version_name, sanitize_timestamp, write_version_name};

#[test]
fn paths_are_joined_like_the_standard_library_does() {
    for base in ["", "/", "a", "a/", "/a/b", "/a/b/"] {
        for name in ["", "x", "x/y", "/x", ".soteria"] {
            assert_eq!(
                path_join(base, name),
                Path::new(base).join(name).to_str().unwrap(),
                "{base:?} {name:?}"
            );
        }
    }
}

#[test]
fn the_install_tree_has_its_places() {
    assert_eq!(soteria_base_dir(Some("/opt/s"), Some("/home/me")), "/opt/s");
    assert_eq!(soteria_base_dir(Some(""), None), "");
    assert_eq!(soteria_base_dir(None, Some("/home/me")), "/home/me/.soteria");
    let package = package_dir("/home/me/.soteria");
    assert_eq!(package, format!("/home/me/.soteria/{RELEASE_DIR}"));
    assert_eq!(
        staging_dir("/home/me/.soteria"),
        Path::new(&package).with_extension("installing").to_str().unwrap()
    );
    assert_eq!(aside_dir("/home/me/.soteria"), "/home/me/.soteria/soteria-release.previous");
    assert_eq!(version_file(&package), "/home/me/.soteria/soteria-release/version.json");
    assert_eq!(version_name_file(&package), "/home/me/.soteria/soteria-release/VERSION");
    assert_eq!(installed_tool(&package, "z3"), "/home/me/.soteria/soteria-release/bin/z3");
}

#[test]
fn the_recorded_name_reads_back() {
    for name in ["0.3.0", "nightly-2026-03-05-21-59-50", "local-abc def"] {
        assert_eq!(write_version_name(name), format!("{name}\n"));
        assert_eq!(read_version_name(&write_version_name(name)).as_deref(), Some(name));
    }
    assert_eq!(read_version_name("  0.1.0 \r\n\n").as_deref(), Some("0.1.0"));
    assert_eq!(read_version_name(""), None);
    assert_eq!(read_version_name(" \n\t"), None);
}

#[test]
fn stamps_hold_no_separators() {
    assert_eq!(sanitize_timestamp("2026-03-05T21:59:50ZZ"), "2026-03-05-21-59-50");
    assert_eq!(sanitize_timestamp("ZTZ:"), "Z-Z-");
    assert_eq!(sanitize_timestamp(""), "");
}
