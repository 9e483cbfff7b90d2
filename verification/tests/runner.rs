use cargo_soteria::runner_common::{
    anchored_filter, crate_dir, discover_args, discover_tests, discovered, lib_path_var, parse_test_list,
    soteria_rust_command, succeeded, test_list_candidates, DiscoverError, ProcessOutput, ToolOverrides,
};

#[test]
fn anchors_and_escapes() {
    assert_eq!(anchored_filter("a::b"), "^a::b$");
    // `.` `+` etc. get escaped so they match literally.
    assert_eq!(anchored_filter("m::a.b+c"), "^m::a\\.b\\+c$");
    // `(` `)` are literal in Str and must stay unescaped.
    assert_eq!(anchored_filter("f::g()"), "^f::g()$");
}

#[test]
fn every_metacharacter_is_escaped() {
    assert_eq!(anchored_filter(".*+?[]^$\\"), "^\\.\\*\\+\\?\\[\\]\\^\\$\\\\$");
    assert_eq!(anchored_filter("|{}-é"), "^|{}-é$");
    assert_eq!(anchored_filter(""), "^$");
}

#[test]
fn parses_test_list_json() {
    let v = parse_test_list("[\"a::x\",\"b::y\"]\n").unwrap();
    assert_eq!(v, vec!["a::x", "b::y"]);
    // tolerate a stray leading line
    let v = parse_test_list("warning: blah\n[\"only\"]\n").unwrap();
    assert_eq!(v, vec!["only"]);
    assert!(parse_test_list("not json").is_none());
}

#[test]
fn the_last_line_that_parses_counts() {
    assert_eq!(parse_test_list("[\"a\"]\n[\"b\"]\n[oops\nend\n").unwrap(), vec!["b"]);
    assert_eq!(parse_test_list("  [\"a\"]  \r\nnoise").unwrap(), vec!["a"]);
    // A list over several lines counts where nothing else is printed.
    assert_eq!(parse_test_list("\n[\n\"a\",\n\"b\"\n]\n").unwrap(), vec!["a", "b"]);
    assert!(parse_test_list("noise\n[\n\"a\"\n]\n").is_none());
    assert_eq!(parse_test_list("[]").unwrap(), Vec::<String>::new());
    assert!(parse_test_list("[1]").is_none());
    assert_eq!(test_list_candidates(" x\n[1]\ny\n [2]\n"), vec!["x\n[1]\ny\n [2]", "[2]", "[1]"]);
}

fn output(code: Option<i32>, stdout: &[u8], stderr: &[u8]) -> Result<ProcessOutput, String> {
    Ok(ProcessOutput { code, stdout: stdout.to_vec(), stderr: stderr.to_vec() })
}

#[test]
fn a_list_counts_whatever_the_exit_code() {
    assert_eq!(discover_tests(output(Some(0), b"[\"a\"]\n", b"")).unwrap(), vec!["a"]);
    assert_eq!(discover_tests(output(Some(2), b"[\"a\"]\n", b"")).unwrap(), vec!["a"]);
    assert_eq!(discover_tests(output(None, b"x\n[\"a\"]\n", b"y")).unwrap(), vec!["a"]);
}

#[test]
fn discovery_failures_are_diagnosed() {
    let e = discover_tests(Err("no such file".to_string())).unwrap_err();
    assert!(matches!(&e, DiscoverError::Spawn(m) if m == "no such file"));
    assert_eq!(e.message(), "Failed to run soteria-rust: no such file");

    // The compiler diagnostic is on stdout, the progress on stderr: both are shown.
    let e = discover_tests(output(Some(3), b" error[E0308]\n", b"Compiling... errored\n")).unwrap_err();
    assert!(matches!(&e, DiscoverError::Failed { code: Some(3), .. }));
    assert_eq!(e.message(), "Test discovery failed (exit 3).\nCompiling... errored\nerror[E0308]");

    let e = discover_tests(output(None, b"", b" \n")).unwrap_err();
    assert_eq!(e.message(), "Test discovery failed (exit -1).");

    let e = discover_tests(output(Some(0), b"hello \xff\n", b"")).unwrap_err();
    assert!(matches!(&e, DiscoverError::Unparseable { .. }));
    assert_eq!(
        e.message(),
        "Could not parse the test list from `soteria-rust compile --list-tests`.\n  stdout: hello \u{fffd}\n  stderr: "
    );
}

#[test]
fn what_was_found_decides_before_the_exit_code() {
    let found = discovered(Some(vec!["a".to_string()]), Some(1), "o".to_string(), "e".to_string());
    assert_eq!(found.unwrap(), vec!["a"]);
    assert!(matches!(
        discovered(None, Some(1), "o".to_string(), "e".to_string()),
        Err(DiscoverError::Failed { code: Some(1), stdout, stderr }) if stdout == "o" && stderr == "e"
    ));
    assert!(matches!(
        discovered(None, Some(0), "o".to_string(), "e".to_string()),
        Err(DiscoverError::Unparseable { stdout, stderr }) if stdout == "o" && stderr == "e"
    ));
}

#[test]
fn discovery_compiles_the_crate_directory() {
    let args = vec!["--kani".to_string()];
    assert_eq!(discover_args(None, &args), vec!["compile", "--list-tests", ".", "--kani"]);
    assert_eq!(discover_args(Some("/w"), &[]), vec!["compile", "--list-tests", "/w"]);
    assert_eq!(crate_dir(None), ".");
    assert_eq!(crate_dir(Some("/w")), "/w");
}

#[test]
fn only_exit_code_zero_is_success() {
    assert!(succeeded(Some(0)));
    assert!(!succeeded(Some(1)));
    assert!(!succeeded(Some(-1)));
    assert!(!succeeded(None));
}

fn nothing_set() -> ToolOverrides {
    ToolOverrides { z3: None, obol: None, charon: None, plugins: None }
}

#[test]
fn what_the_user_has_set_overrides_the_bundled_tools() {
    let value = |set: &ToolOverrides, variable: &str| {
        let command = soteria_rust_command("/home/u/s", false, "", set);
        command.env.iter().find(|(k, _)| k == variable).unwrap().1.clone()
    };
    let set = ToolOverrides { z3: Some("/usr/bin/z3".to_string()), ..nothing_set() };
    assert_eq!(value(&set, "SOTERIA_Z3_PATH"), "/usr/bin/z3");
    assert_eq!(value(&set, "SOTERIA_OBOL_PATH"), "/home/u/s/bin/obol");
    let set = ToolOverrides {
        z3: None,
        obol: Some("o".to_string()),
        charon: Some("c".to_string()),
        plugins: Some(String::new()),
    };
    assert_eq!(value(&set, "SOTERIA_Z3_PATH"), "/home/u/s/bin/z3");
    assert_eq!(value(&set, "SOTERIA_OBOL_PATH"), "o");
    assert_eq!(value(&set, "SOTERIA_CHARON_PATH"), "c");
    assert_eq!(value(&set, "SOTERIA_RUST_PLUGINS"), "");
}

#[test]
fn the_tool_finds_its_siblings() {
    let command = soteria_rust_command("/s", false, "/usr/lib", &nothing_set());
    assert_eq!(command.program, "/s/bin/soteria-rust");
    let env: Vec<(&str, &str)> = command.env.iter().map(|(k, v)| (k.as_str(), v.as_str())).collect();
    assert_eq!(
        env,
        [
            ("LD_LIBRARY_PATH", "/s/lib:/usr/lib"),
            ("SOTERIA_Z3_PATH", "/s/bin/z3"),
            ("SOTERIA_OBOL_PATH", "/s/bin/obol"),
            ("SOTERIA_CHARON_PATH", "/s/bin/charon"),
            ("SOTERIA_RUST_PLUGINS", "/s/plugins"),
        ]
    );
    let command = soteria_rust_command("/s", true, "", &nothing_set());
    assert_eq!(command.env[0], ("DYLD_LIBRARY_PATH".to_string(), "/s/lib".to_string()));
    assert_eq!(lib_path_var(true), "DYLD_LIBRARY_PATH");
    assert_eq!(lib_path_var(false), "LD_LIBRARY_PATH");
}
