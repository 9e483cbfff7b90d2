use cargo_soteria::release::{
    available_versions, find_exact, find_platform_asset, pick_default, platform_asset_suffix, sanitize_timestamp, GhAsset,
    GhRelease,
};
use cargo_soteria::version::{
    fmt_series, join_versions, parse_release_spec, ReleaseSpec, Version, MAX_SUPPORTED_MINOR, MIN_SUPPORTED_MINOR,
};

fn v(major: u64, minor: u64, patch: u64) -> Version {
    Version { major, minor, patch }
}

fn rel(tag: &str) -> GhRelease {
    GhRelease {
        id: 0,
        tag_name: tag.to_string(),
        published_at: Some("2026-01-01T00:00:00Z".to_string()),
        assets: vec![],
    }
}

fn asset(name: &str) -> GhAsset {
    GhAsset { name: name.to_string(), browser_download_url: String::new(), size: 0 }
}

#[test]
fn find_platform_asset_matches_versioned_and_nightly() {
    for (os, arch) in [("linux", "x86_64"), ("macos", "aarch64")] {
        let suffix = platform_asset_suffix(os, arch).unwrap();

        // Versioned release: the rust bundle embeds the version, and a sibling
        // soteria-c bundle shares the platform suffix and must NOT be chosen.
        let mut versioned = rel("v0.1.0");
        versioned.assets = vec![
            asset("SHA256SUMS.txt"),
            asset(&format!("soteria-c-v0.1.0-{suffix}")),
            asset(&format!("soteria-rust-v0.1.0-{suffix}")),
        ];
        assert_eq!(
            find_platform_asset(&versioned, suffix).unwrap().name,
            format!("soteria-rust-v0.1.0-{suffix}")
        );

        // Nightly release: no version segment in the name.
        let mut nightly = rel("nightly");
        nightly.assets = vec![asset(&format!("soteria-rust-{suffix}"))];
        assert_eq!(
            find_platform_asset(&nightly, suffix).unwrap().name,
            format!("soteria-rust-{suffix}")
        );
    }
}

#[test]
fn missing_asset_names_what_is_there() {
    let mut release = rel("v0.1.0");
    release.assets = vec![asset("a.txt"), asset("soteria-c-linux-x86_64.zip")];
    assert_eq!(
        find_platform_asset(&release, "linux-x86_64.zip").unwrap_err(),
        "No soteria-rust bundle for 'linux-x86_64.zip' found in the 'v0.1.0' release.\nAvailable: a.txt, soteria-c-linux-x86_64.zip"
    );
}

#[test]
fn platforms_without_a_bundle_are_refused() {
    assert_eq!(platform_asset_suffix("linux", "x86_64").unwrap(), "linux-x86_64.zip");
    assert_eq!(platform_asset_suffix("macos", "aarch64").unwrap(), "macos-arm64.zip");
    let message = platform_asset_suffix("linux", "aarch64").unwrap_err();
    assert_eq!(
        message,
        "Unsupported platform: linux/aarch64. Pre-built binaries are available for macOS ARM64 \
         (aarch64-apple-darwin) and Linux x86_64 (x86_64-unknown-linux-gnu). \
         See https://github.com/soteria-tools/soteria for updates."
    );
}

#[test]
fn version_parses_clean_and_v_prefixed() {
    assert_eq!(Version::parse("0.3.5"), Some(v(0, 3, 5)));
    assert_eq!(Version::parse("v0.3.5"), Some(v(0, 3, 5)));
    assert_eq!(Version::parse(" 1.20.300 "), Some(v(1, 20, 300)));
}

#[test]
fn version_rejects_non_semver() {
    for bad in ["nightly", "0.3", "0.3.5-rc1", "1.2.3.4", "", "x.y.z", "0.3.x"] {
        assert_eq!(Version::parse(bad), None, "should reject {bad:?}");
    }
}

#[test]
fn version_orders_numerically() {
    assert!(Version::parse("0.3.10") > Version::parse("0.3.9"));
    assert!(Version::parse("0.4.0") > Version::parse("0.3.99"));
    assert!(Version::parse("1.0.0") > Version::parse("0.99.99"));
}

#[test]
fn support_window_uses_constants() {
    let at_min = v(MIN_SUPPORTED_MINOR.0, MIN_SUPPORTED_MINOR.1, 0);
    let at_max = v(MAX_SUPPORTED_MINOR.0, MAX_SUPPORTED_MINOR.1, 99);
    let above_max = v(MAX_SUPPORTED_MINOR.0, MAX_SUPPORTED_MINOR.1 + 1, 0);
    assert!(at_min.is_supported(), "min series must be supported");
    assert!(at_max.is_supported(), "max series must be supported");
    assert!(!above_max.is_supported(), "series above max must be rejected");
    assert!(!v(999, 0, 0).is_supported());
}

#[test]
fn parse_release_spec_variants() {
    assert_eq!(parse_release_spec(None), Ok(ReleaseSpec::Default));
    assert_eq!(parse_release_spec(Some("nightly")), Ok(ReleaseSpec::Nightly));
    assert_eq!(parse_release_spec(Some("NIGHTLY")), Ok(ReleaseSpec::Nightly));
    assert_eq!(parse_release_spec(Some("0.3.5")), Ok(ReleaseSpec::Exact(v(0, 3, 5))));
    assert!(parse_release_spec(Some("bogus")).is_err());
}

#[test]
fn invalid_release_argument_is_quoted_back() {
    assert_eq!(
        parse_release_spec(Some("bogus")).unwrap_err(),
        "Invalid --release value 'bogus'. Expected 'nightly' or a version like '0.3.5'."
    );
}

#[test]
fn pick_default_takes_highest_supported() {
    // Two patches at the max supported minor, plus one above the window
    // (ignored) and the nightly tag (unparseable, ignored). Built relative
    // to the constants so it holds for whatever window is configured.
    let (maj, min) = MAX_SUPPORTED_MINOR;
    let lo = format!("{maj}.{min}.1");
    let hi = format!("v{maj}.{min}.4");
    let above = format!("{maj}.{}.0", min + 1);
    let releases = [rel("nightly"), rel(&lo), rel(&hi), rel(&above)];
    let (ver, _) = pick_default(&releases).expect("a supported release");
    assert_eq!(ver, v(maj, min, 4));
}

#[test]
fn pick_default_takes_the_last_of_equal_versions() {
    let (maj, min) = MAX_SUPPORTED_MINOR;
    let mut first = rel(&format!("{maj}.{min}.4"));
    first.id = 1;
    let mut second = rel(&format!("v{maj}.{min}.4"));
    second.id = 2;
    let lower = rel(&format!("{maj}.{min}.3"));
    let releases = [first, second, lower];
    assert_eq!(pick_default(&releases).unwrap().1.id, 2);
}

#[test]
fn pick_default_none_when_window_empty() {
    // Only the nightly and versions far above any realistic window.
    let releases = [rel("nightly"), rel("998.0.0"), rel("999.9.9")];
    assert!(pick_default(&releases).is_none());
}

#[test]
fn find_exact_matches_across_tag_styles() {
    let releases = [rel("0.2.5"), rel("v0.3.1")];
    assert!(find_exact(&releases, v(0, 3, 1)).is_some());
    assert!(find_exact(&releases, v(0, 2, 5)).is_some());
    assert!(find_exact(&releases, v(0, 9, 9)).is_none());
}

#[test]
fn available_versions_sorted_and_filtered() {
    let releases = [rel("0.3.1"), rel("nightly"), rel("0.2.5")];
    assert_eq!(available_versions(&releases), vec![v(0, 2, 5), v(0, 3, 1)]);
}

#[test]
fn sanitize_timestamp_is_filename_safe() {
    assert_eq!(sanitize_timestamp("2026-03-05T21:59:50Z"), "2026-03-05-21-59-50");
}

#[test]
fn version_text_reads_back() {
    for x in [v(0, 0, 0), v(1, 20, 300), v(u64::MAX, 7, u64::MAX)] {
        assert_eq!(Version::parse(&x.to_string()), Some(x));
        assert_eq!(Version::parse(&format!("v{}", x.to_string())), Some(x));
    }
    assert_eq!(v(1, 20, 300).to_string(), "1.20.300");
    // One above the largest number that fits.
    assert_eq!(Version::parse("18446744073709551616.0.0"), None);
    assert_eq!(Version::parse("+1.2.3"), Some(v(1, 2, 3)));
    assert_eq!(Version::parse("1..3"), None);
}

#[test]
fn versions_are_joined_for_messages() {
    assert_eq!(join_versions(&[]), "none");
    assert_eq!(join_versions(&[v(0, 1, 2)]), "0.1.2");
    assert_eq!(join_versions(&[v(0, 1, 2), v(0, 2, 0)]), "0.1.2, 0.2.0");
    assert_eq!(fmt_series((0, 1)), "0.1");
}
