use cargo_soteria::json::Json;
use cargo_soteria::nextest::{
    encode_extra_args, exit_code, extra_soteria_args, host_triple, metadata_failure_message, parse_host_triple, run, runner,
    selects_targets, split_soteria_args, test_listing, toml_str, use_default_targets, Arg, RunnerAction, CARGO_METADATA_ENV,
    EXTRA_ARGS_ENV, RUNNER_FLAG, USE_DEFAULT_TARGETS_ENV,
};
use cargo_soteria::runner_common::ProcessOutput;
use cargo_soteria::targets::{
    invalid_declaration_message, unknown_package_message, DefaultTargets, MetadataPackage, ProbedBinary,
    RunnerCargoMetadata, TargetKind, TargetsError,
};

fn owned(args: &[&str]) -> Vec<String> {
    args.iter().map(|s| s.to_string()).collect()
}

fn convert(value: &serde_json::Value) -> Json {
    match value {
        serde_json::Value::Null => Json::Null,
        serde_json::Value::Bool(b) => Json::Bool(*b),
        serde_json::Value::Number(n) => Json::Number(n.to_string()),
        serde_json::Value::String(s) => Json::Str(s.clone()),
        serde_json::Value::Array(items) => Json::Array(items.iter().map(convert).collect()),
        serde_json::Value::Object(fields) => {
            Json::Object(fields.iter().map(|(k, v)| (k.clone(), convert(v))).collect())
        }
    }
}

fn json(text: &str) -> Json {
    convert(&serde_json::from_str::<serde_json::Value>(text).unwrap())
}

fn package(name: &str, id: &str, metadata: Option<&str>) -> MetadataPackage {
    MetadataPackage { name: name.to_string(), id: id.to_string(), metadata: metadata.map(json) }
}

#[test]
fn binary_id_parses_to_target() {
    // Library and proc-macro unit tests use just the package name.
    let b = ProbedBinary::parse("iddqd");
    assert_eq!(b.package, "iddqd");
    assert!(matches!(b.target, TargetKind::Lib));
    assert_eq!(b.test_target(), Ok(None));

    // Integration tests: `pkg::name`.
    let b = ProbedBinary::parse("iddqd::soteria");
    assert_eq!(b.package, "iddqd");
    assert!(matches!(&b.target, TargetKind::IntegrationTest(n) if n == "soteria"));
    assert_eq!(b.test_target(), Ok(Some("soteria")));

    // Other kinds (`pkg::kind/name`).
    let b = ProbedBinary::parse("iddqd::bin/cli");
    assert_eq!(b.package, "iddqd");
    assert!(matches!(b.target, TargetKind::Other(kind) if kind == "bin"));
}

#[test]
fn other_targets_are_refused() {
    let b = ProbedBinary::parse("iddqd::bin/cli");
    assert_eq!(
        b.test_target().unwrap_err(),
        "cargo-soteria can't analyse bin targets (in package `iddqd`); \
         only the library and integration tests are supported."
    );
}

#[test]
fn binary_id_is_split_at_the_first_separators() {
    let b = ProbedBinary::parse("a:b::c::d");
    assert_eq!(b.package, "a:b");
    assert_eq!(b.test_target(), Ok(Some("c::d")));

    let b = ProbedBinary::parse("a::bin/x/y");
    assert!(matches!(b.target, TargetKind::Other(kind) if kind == "bin"));

    let b = ProbedBinary::parse(":::x");
    assert_eq!(b.package, "");
    assert_eq!(b.test_target(), Ok(Some(":x")));

    let b = ProbedBinary::parse("");
    assert_eq!(b.package, "");
    assert!(matches!(b.target, TargetKind::Lib));
}

#[test]
fn binary_id_must_be_set() {
    assert_eq!(ProbedBinary::from_env(Some("p::t")).unwrap().package, "p");
    assert_eq!(
        ProbedBinary::from_env(None).unwrap_err(),
        "NEXTEST_BINARY_ID is not set while listing tests.\n  \
         `cargo soteria nextest` requires cargo-nextest 0.9.138 or newer; see \
         https://nexte.st/docs/installation/pre-built-binaries/ or install from \
         source with `cargo install cargo-nextest --locked`."
    );
}

#[test]
fn is_default_target_per_package() {
    // Two workspace packages: one declares `lib = false, test = ["soteria"]`,
    // the other has no declaration (so the defaults: `lib = true`, no test
    // targets; its `metadata` is JSON `null`, as cargo emits it).
    let metadata = RunnerCargoMetadata {
        workspace_members: owned(&["path+file:///declared#0.1.0", "path+file:///bare#0.1.0"]),
        packages: vec![
            package(
                "declared",
                "path+file:///declared#0.1.0",
                Some(r#"{"soteria": {"default-targets": {"lib": false, "test": ["soteria"]}}}"#),
            ),
            package("bare", "path+file:///bare#0.1.0", None),
        ],
    };
    let is_dt = |id: &str| match ProbedBinary::parse(id).is_default_target(&metadata) {
        Ok(b) => b,
        Err(_) => panic!("no default targets for {id}"),
    };

    // `declared`: lib opted out, only the `soteria` test target counts.
    assert!(!is_dt("declared")); // lib = false
    assert!(is_dt("declared::soteria")); // in `test`
    assert!(!is_dt("declared::integration")); // not in `test`
    assert!(!is_dt("declared::bin/cli")); // not a soteria target

    // `bare`: no declaration, so the lib is analysed by default, but test
    // targets are not.
    assert!(is_dt("bare")); // default lib = true
    assert!(!is_dt("bare::soteria")); // default test = []
}

#[test]
fn default_targets_ignores_same_named_dependency() {
    // The metadata is fetched with dependencies, so `packages` can list a
    // dependency whose name collides with a workspace member's. The lookup
    // must resolve to the workspace member, identified by its id being in
    // `workspace_members`, not the dependency, even though the dependency is
    // listed first (so a name-only lookup would pick the wrong one).
    let metadata = RunnerCargoMetadata {
        workspace_members: owned(&["path+file:///ws#collide@0.1.0"]),
        packages: vec![
            // A same-named dependency, listed first; must be ignored.
            package(
                "collide",
                "registry+https://example.com#collide@2.0.0",
                Some(r#"{"soteria": {"default-targets": {"lib": true, "test": ["other"]}}}"#),
            ),
            // The real workspace member: lib opted out, one test target.
            package(
                "collide",
                "path+file:///ws#collide@0.1.0",
                Some(r#"{"soteria": {"default-targets": {"lib": false, "test": ["soteria"]}}}"#),
            ),
        ],
    };
    let is_dt = |id: &str| match ProbedBinary::parse(id).is_default_target(&metadata) {
        Ok(b) => b,
        Err(_) => panic!("no default targets for {id}"),
    };

    // The workspace member's declaration wins, not the dependency's.
    assert!(!is_dt("collide")); // workspace member: lib = false
    assert!(is_dt("collide::soteria")); // workspace member: in `test`
    assert!(!is_dt("collide::other")); // only the dependency declared this
}

#[test]
fn default_targets_parse_from_metadata_json() {
    // lib + test.
    let parsed = DefaultTargets::from_json(&json(r#"{ "lib": true, "test": ["soteria"] }"#)).unwrap();
    assert!(parsed.lib);
    assert_eq!(parsed.test, vec!["soteria".to_string()]);

    // lib defaults to true.
    let parsed = DefaultTargets::from_json(&json(r#"{ "test": ["soteria"] }"#)).unwrap();
    assert!(parsed.lib);
    assert_eq!(parsed.test, vec!["soteria".to_string()]);

    // Opting the library out is explicit.
    let parsed = DefaultTargets::from_json(&json(r#"{ "lib": false, "test": ["soteria"] }"#)).unwrap();
    assert!(!parsed.lib);

    // A typoed key is rejected rather than silently ignored.
    assert!(DefaultTargets::from_json(&json(r#"{ "lib": true, "tests": ["soteria"] }"#)).is_none());
}

#[test]
fn declarations_of_the_wrong_type_are_rejected() {
    for bad in [
        "null",
        "true",
        "3",
        r#""lib""#,
        r#"{ "lib": null }"#,
        r#"{ "lib": 1 }"#,
        r#"{ "lib": "true" }"#,
        r#"{ "test": null }"#,
        r#"{ "test": "soteria" }"#,
        r#"{ "test": ["soteria", 1] }"#,
        r#"{ "test": [["soteria"]] }"#,
        "[true, [], 1]",
        r#"[["soteria"]]"#,
    ] {
        assert!(DefaultTargets::from_json(&json(bad)).is_none(), "accepted {bad}");
    }
    // A declaration may be empty, or name its parts in order.
    for (good, lib, test) in [
        ("{}", true, vec![]),
        ("[]", true, vec![]),
        ("[false]", false, vec![]),
        (r#"[false, ["a", "b"]]"#, false, vec!["a", "b"]),
        (r#"{ "test": [], "lib": false }"#, false, vec![]),
    ] {
        let parsed = DefaultTargets::from_json(&json(good)).unwrap();
        assert_eq!(parsed.lib, lib, "{good}");
        assert_eq!(parsed.test, test, "{good}");
    }
    assert!(DefaultTargets::default().lib);
    assert!(DefaultTargets::default().test.is_empty());
}

#[test]
fn missing_and_broken_declarations_are_told_apart() {
    let metadata = RunnerCargoMetadata {
        workspace_members: owned(&["broken", "empty", "odd"]),
        packages: vec![
            package("broken", "broken", Some(r#"{"soteria": {"default-targets": {"libs": true}}}"#)),
            package("empty", "empty", Some(r#"{"soteria": {}}"#)),
            package("odd", "odd", Some(r#"{"soteria": [1]}"#)),
            package("outside", "outside", None),
        ],
    };
    assert!(matches!(metadata.default_targets_for("broken"), Err(TargetsError::InvalidDeclaration(Json::Object(_)))));
    assert!(metadata.default_targets_for("empty").is_ok_and(|t| t.lib && t.test.is_empty()));
    assert!(metadata.default_targets_for("odd").is_ok_and(|t| t.lib && t.test.is_empty()));
    assert!(matches!(metadata.default_targets_for("outside"), Err(TargetsError::UnknownPackage)));
    assert!(matches!(metadata.default_targets_for("nowhere"), Err(TargetsError::UnknownPackage)));
    assert!(matches!(
        ProbedBinary::parse("broken::t").is_default_target(&metadata),
        Err(TargetsError::InvalidDeclaration(_))
    ));
    assert_eq!(
        unknown_package_message("outside"),
        "Workspace package `outside` (from NEXTEST_BINARY_ID) is not in the cargo metadata. \
         This is a bug in `cargo soteria nextest`."
    );
    assert_eq!(
        invalid_declaration_message("broken", "unknown field `libs`"),
        "Invalid `[package.metadata.soteria.default-targets]` for package `broken`: unknown field `libs`\n  \
         Expected `lib` (a boolean) and/or `test` (an array of integration-test target names)."
    );
}

#[test]
fn detects_user_target_selection() {
    assert!(selects_targets(&["run".into(), "--lib".into()]));
    assert!(selects_targets(&["run".into(), "--test".into(), "it".into()]));
    assert!(selects_targets(&["run".into(), "--bin=foo".into()]));
    assert!(selects_targets(&["run".into(), "--all-targets".into()]));
    // package selection is not target selection
    assert!(!selects_targets(&["run".into(), "-p".into(), "pkg".into()]));
    assert!(!selects_targets(&["run".into(), "mytest".into()]));
}

#[test]
fn every_target_flag_counts() {
    for flag in [
        "--lib",
        "--bin",
        "--bins",
        "--test",
        "--tests",
        "--bench",
        "--benches",
        "--example",
        "--examples",
        "--all-targets",
        "--bin=x",
        "--test=x",
        "--bench=x",
        "--example=",
    ] {
        assert!(selects_targets(&owned(&[flag])), "{flag}");
    }
    for other in ["--libs", "--lib=x", "--tests=x", "-lib", "lib", "--bin-x", "--targets", ""] {
        assert!(!selects_targets(&owned(&[other])), "{other}");
    }
    assert!(!selects_targets(&[]));
}

#[test]
fn parses_rustc_host() {
    let vv = "rustc 1.79.0\nbinary: rustc\nhost: aarch64-apple-darwin\nrelease: 1.79.0\n";
    assert_eq!(parse_host_triple(vv).unwrap(), "aarch64-apple-darwin");
    assert!(parse_host_triple("no host here").is_none());
}

#[test]
fn host_triple_reports_each_failure() {
    let output = |code: Option<i32>, stdout: &str| {
        Ok(ProcessOutput { code, stdout: stdout.as_bytes().to_vec(), stderr: vec![] })
    };
    assert_eq!(host_triple(output(Some(0), "x\r\nhost:  a-b-c \r\nhost: d\n")), Ok("a-b-c".to_string()));
    assert_eq!(
        host_triple(output(Some(0), " host: a-b-c\n")),
        Err("Could not find the host target in `rustc -vV` output.".to_string())
    );
    let failed = Err("`rustc -vV` failed; cannot detect the host target triple.".to_string());
    assert_eq!(host_triple(output(Some(1), "host: a-b-c\n")), failed);
    assert_eq!(host_triple(output(None, "host: a-b-c\n")), failed);
    assert_eq!(
        host_triple(Err("not found".to_string())),
        Err(
            "Failed to run rustc to detect the host target: not found.\n  Is a Rust toolchain installed?"
                .to_string()
        )
    );
}

#[test]
fn splits_soteria_args_at_dashdash() {
    let split = |a: &[&str]| {
        let owned: Vec<String> = a.iter().map(|s| s.to_string()).collect();
        split_soteria_args(&owned)
    };
    // No `--`: everything is a nextest arg.
    assert_eq!(split(&["run", "mytest"]), (vec!["run".into(), "mytest".into()], vec![]));
    // `--` separates nextest args from the soteria-rust flag bag.
    assert_eq!(split(&["run", "--", "--kani"]), (vec!["run".into()], vec!["--kani".into()]));
    // A trailing `--` yields an empty (but present) soteria bag.
    assert_eq!(split(&["run", "--"]), (vec!["run".into()], vec![]));
    // Only the first `--` splits; later ones stay in the soteria bag.
    assert_eq!(
        split(&["run", "--", "--kani", "--", "x"]),
        (vec!["run".into()], vec!["--kani".into(), "--".into(), "x".into()])
    );
}

#[test]
fn extra_args_roundtrip_through_env() {
    let extra = vec!["--kani".to_string(), "--filter".to_string(), "f".to_string()];
    let encoded = encode_extra_args(&extra);
    assert_eq!(extra_soteria_args(Some(&encoded)), extra);
    assert!(extra_soteria_args(None).is_empty());
}

#[test]
fn odd_extra_args_survive_the_environment() {
    for extra in [vec![], owned(&[""]), owned(&["a b", "\"q\"", "\\", "\n", "é…", "\u{1F600}"])] {
        assert_eq!(extra_soteria_args(Some(&encode_extra_args(&extra))), extra);
    }
    assert_eq!(encode_extra_args(&owned(&["--kani", "a\"b"])), r#"["--kani","a\"b"]"#);
    // What is no list of texts counts as no arguments.
    for bad in ["", "[1]", "{}", "[\"a\"", "null"] {
        assert!(extra_soteria_args(Some(bad)).is_empty(), "{bad}");
    }
}

#[test]
fn toml_escapes_paths() {
    assert_eq!(toml_str("/a/b"), "\"/a/b\"");
    assert_eq!(toml_str("/has space/x"), "\"/has space/x\"");
    assert_eq!(toml_str("a\"b\\c"), "\"a\\\"b\\\\c\"");
}

#[test]
fn default_targets_variable_is_strict() {
    assert_eq!(use_default_targets(Some("1")), Ok(true));
    assert_eq!(use_default_targets(Some("0")), Ok(false));
    assert_eq!(
        use_default_targets(Some("yes")),
        Err(
            "SOTERIA_USE_DEFAULT_TARGETS should be `0` or `1`, but is `yes`. \
             Are you using `cargo soteria nextest`?"
                .to_string()
        )
    );
    assert_eq!(
        use_default_targets(None),
        Err("SOTERIA_USE_DEFAULT_TARGETS is not set. Are you using `cargo soteria nextest`?".to_string())
    );
}

fn act(args: &[&str], id: &str, selected: bool, extra: &[&str]) -> RunnerAction {
    runner(&owned(args), &ProbedBinary::parse(id), selected, &owned(extra))
}

fn listed(action: RunnerAction) -> Vec<String> {
    match action {
        RunnerAction::List(args) => args,
        _ => panic!("expected a list phase"),
    }
}

fn executed(action: RunnerAction) -> Vec<String> {
    match action {
        RunnerAction::Exec(args) => args,
        _ => panic!("expected a run phase"),
    }
}

#[test]
fn runner_lists_and_runs_the_same_target() {
    assert_eq!(
        listed(act(&["bin", "--list", "--format", "terse"], "p::it", true, &["--kani"])),
        owned(&["compile", "--list-tests", ".", "--test", "it", "--kani"])
    );
    assert_eq!(
        executed(act(&["bin", "m::a.b", "--exact", "--nocapture"], "p::it", true, &["--kani"])),
        owned(&[
            "exec",
            ".",
            "--no-compile",
            "--no-compile-plugins",
            "--test",
            "it",
            "--kani",
            "--filter",
            "^m::a\\.b$",
        ])
    );
    assert_eq!(listed(act(&["bin", "--list"], "p", true, &[])), owned(&["compile", "--list-tests", "."]));
    assert_eq!(
        executed(act(&["bin", "--exact", "t", "u"], "p", true, &[])),
        owned(&["exec", ".", "--no-compile", "--no-compile-plugins", "--filter", "^t$"])
    );
}

#[test]
fn runner_skips_and_fails_where_it_must() {
    assert!(matches!(act(&["bin", "--list"], "p::bin/x", false, &[]), RunnerAction::Skip));
    assert!(matches!(act(&["bin", "--list", "--ignored"], "p", true, &[]), RunnerAction::Skip));
    assert!(matches!(
        act(&["bin", "--list"], "p::bin/x", true, &[]),
        RunnerAction::Fail(m) if m.starts_with("cargo-soteria can't analyse bin targets")
    ));
    for none in [&[][..], &["bin"], &["bin", "--exact"]] {
        assert!(matches!(
            act(none, "p", true, &[]),
            RunnerAction::Fail(m) if m == "No test name passed to the soteria nextest runner."
        ));
    }
    // The path of the test binary is no test name, nor a request for a list.
    assert!(matches!(act(&["--list", "t"], "p", true, &[]), RunnerAction::Exec(_)));
}

#[test]
fn listing_has_one_line_per_test() {
    assert_eq!(test_listing(&[]), "");
    let listing = test_listing(&owned(&["a::x", "b"]));
    assert_eq!(listing, "a::x: test\nb: test\n");
    assert_eq!(listing.lines().count(), 2);
}

#[test]
fn exit_codes_are_passed_on() {
    assert_eq!(exit_code(Some(0)), 0);
    assert_eq!(exit_code(Some(3)), 3);
    assert_eq!(exit_code(None), 1);
}

fn shown(arg: &Arg) -> &str {
    match arg {
        Arg::Text(s) => s,
        Arg::MetadataFile => "<metadata>",
    }
}

#[test]
fn wrapper_shares_metadata_for_default_targets() {
    let cargo = run(&owned(&["run", "-p", "x", "--", "--kani"]), "a-b-c", "/my exe");
    assert!(cargo.needs_metadata);
    assert_eq!(
        cargo.args.iter().map(shown).collect::<Vec<_>>(),
        [
            "nextest",
            "run",
            "-p",
            "x",
            "--cargo-metadata",
            "<metadata>",
            "--target",
            "a-b-c",
            "--config",
            "target.a-b-c.runner=[\"/my exe\", \"__nextest-runner\"]",
        ]
    );
    assert_eq!(
        cargo.env.iter().map(|(k, v)| (k.as_str(), shown(v))).collect::<Vec<_>>(),
        [
            (USE_DEFAULT_TARGETS_ENV, "1"),
            (CARGO_METADATA_ENV, "<metadata>"),
            (EXTRA_ARGS_ENV, "[\"--kani\"]"),
        ]
    );
    assert_eq!(RUNNER_FLAG, "__nextest-runner");
}

#[test]
fn wrapper_leaves_selected_targets_alone() {
    let cargo = run(&owned(&["run", "--lib"]), "t", "e");
    assert!(!cargo.needs_metadata);
    assert_eq!(
        cargo.args.iter().map(shown).collect::<Vec<_>>(),
        ["nextest", "run", "--lib", "--target", "t", "--config", "target.t.runner=[\"e\", \"__nextest-runner\"]"]
    );
    assert_eq!(
        cargo.env.iter().map(|(k, v)| (k.as_str(), shown(v))).collect::<Vec<_>>(),
        [(USE_DEFAULT_TARGETS_ENV, "0")]
    );
    // A target flag behind `--` selects nothing.
    assert!(run(&owned(&["run", "--", "--lib"]), "t", "e").needs_metadata);
}

#[test]
fn failed_metadata_is_reported_with_its_output() {
    assert_eq!(
        metadata_failure_message("exit status: 101", b"  error: x\xff\n"),
        "`cargo metadata` failed (exit status: 101).\nerror: x\u{fffd}"
    );
}
