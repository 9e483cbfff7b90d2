//! Logic shared between the runners: the environment of the bundled
//! `soteria-rust`, discovering a crate's symbolic-test entry points, and the
//! filter-escaping used to isolate a single test.

use vstd::prelude::*;

use crate::common::{installed_tool, path_join, path_joined, tool_path};
use crate::decimal::{signed_decimal, signed_text};
use crate::json::{json_string_array, strings_from_json};
use crate::text::{
    chars_of, ends_with, has_prefix, lines, lines_of, opt_text, opt_texts, starts_with, text_from_bytes, text_pairs, texts, trim,
    trimmed, utf8_lossy,
};

verus! {

// ── the tool and its environment ──────────────────────────────────────────────

/// A program to run and the environment variables to set for it.
pub struct ToolCommand {
    pub program: String,
    pub env: Vec<(String, String)>,
}

/// The variable in which the dynamic linker looks for libraries.
pub open spec fn library_path_var(macos: bool) -> Seq<char> {
    if macos {
        "DYLD_LIBRARY_PATH"@
    } else {
        "LD_LIBRARY_PATH"@
    }
}

/// The variable in which the dynamic linker looks for libraries.
pub fn lib_path_var(macos: bool) -> (r: &'static str)
    ensures
        r@ == library_path_var(macos),
{
    if macos {
        "DYLD_LIBRARY_PATH"
    } else {
        "LD_LIBRARY_PATH"
    }
}

/// The library path with the bundled libraries in front of what was there.
pub open spec fn extended_library_path(lib_dir: Seq<char>, existing: Seq<char>) -> Seq<char> {
    if existing.len() == 0 {
        lib_dir
    } else {
        lib_dir + ":"@ + existing
    }
}

/// The places of tools that the user has set: each goes before the bundled one.
pub struct ToolOverrides {
    /// The value of `SOTERIA_Z3_PATH`.
    pub z3: Option<String>,
    /// The value of `SOTERIA_OBOL_PATH`.
    pub obol: Option<String>,
    /// The value of `SOTERIA_CHARON_PATH`.
    pub charon: Option<String>,
    /// The value of `SOTERIA_RUST_PLUGINS`.
    pub plugins: Option<String>,
}

/// The environment that the bundled `soteria-rust` runs in.
pub open spec fn tool_env(
    package: Seq<char>,
    macos: bool,
    existing: Seq<char>,
    set: ToolOverrides,
) -> Seq<(Seq<char>, Seq<char>)> {
    seq![
        (
            library_path_var(macos),
            extended_library_path(path_joined(package, "lib"@), existing),
        ),
        (
            "SOTERIA_Z3_PATH"@,
            match set.z3 {
                Some(v) => v@,
                None => tool_path(package, "z3"@),
            },
        ),
        (
            "SOTERIA_OBOL_PATH"@,
            match set.obol {
                Some(v) => v@,
                None => tool_path(package, "obol"@),
            },
        ),
        (
            "SOTERIA_CHARON_PATH"@,
            match set.charon {
                Some(v) => v@,
                None => tool_path(package, "charon"@),
            },
        ),
        (
            "SOTERIA_RUST_PLUGINS"@,
            match set.plugins {
                Some(v) => v@,
                None => path_joined(package, "plugins"@),
            },
        ),
    ]
}

/// What the user has set, or else the bundled place.
fn set_or(set: &Option<String>, bundled: String) -> (r: String)
    ensures
        r@ == match *set {
            Some(v) => v@,
            None => bundled@,
        },
{
    match set {
        Some(v) => v.clone(),
        None => bundled,
    }
}

/// The bundled `soteria-rust` of the install directory `package`, with the
/// environment it needs to find its dynamic libraries and sibling tools (z3,
/// obol, charon) and pre-built plugins. `existing` is the library path so far, and
/// what the user has `set` overrides the bundled tools and plugins.
pub fn soteria_rust_command(package: &str, macos: bool, existing: &str, set: &ToolOverrides) -> (r:
    ToolCommand)
    ensures
        r.program@ == tool_path(package@, "soteria-rust"@),
        text_pairs(r.env@) == tool_env(package@, macos, existing@, *set),
{
    let mut lib_path = path_join(package, "lib");
    if !existing.is_empty() {
        lib_path.append(":");
        lib_path.append(existing);
    }
    let z3 = set_or(&set.z3, installed_tool(package, "z3"));
    let obol = set_or(&set.obol, installed_tool(package, "obol"));
    let charon = set_or(&set.charon, installed_tool(package, "charon"));
    let plugins = set_or(&set.plugins, path_join(package, "plugins"));
    let mut env: Vec<(String, String)> = Vec::new();
    env.push((lib_path_var(macos).to_owned(), lib_path));
    env.push(("SOTERIA_Z3_PATH".to_owned(), z3));
    env.push(("SOTERIA_OBOL_PATH".to_owned(), obol));
    env.push(("SOTERIA_CHARON_PATH".to_owned(), charon));
    env.push(("SOTERIA_RUST_PLUGINS".to_owned(), plugins));
    ToolCommand { program: installed_tool(package, "soteria-rust"), env }
}

// ── test discovery ────────────────────────────────────────────────────────────

/// Why discovery could not produce a list, with enough captured context to
/// render a useful diagnostic via [`DiscoverError::message`].
#[derive(Debug)]
pub enum DiscoverError {
    /// `soteria-rust` could not be spawned, for the reason given.
    Spawn(String),
    /// Discovery ran but exited non-zero.
    Failed { code: Option<i32>, stdout: String, stderr: String },
    /// Discovery exited 0 but stdout held no parseable test list.
    Unparseable { stdout: String, stderr: String },
}

/// A stream of a failed run as it is appended to a message: on a line of its
/// own, unless there is nothing in it.
pub open spec fn stream_shown(stream: Seq<char>) -> Seq<char> {
    if trimmed(stream).len() == 0 {
        seq![]
    } else {
        "\n"@ + trimmed(stream)
    }
}

/// The code that stands in messages for a run that a signal ended.
pub open spec fn code_or(code: Option<i32>, default: int) -> int {
    match code {
        Some(c) => c as int,
        None => default,
    }
}

impl DiscoverError {
    /// The diagnostic for this error.
    pub open spec fn shown(self) -> Seq<char> {
        match self {
            DiscoverError::Spawn(e) => "Failed to run soteria-rust: "@ + e@,
            DiscoverError::Failed { code, stdout, stderr } => {
                "Test discovery failed (exit "@ + signed_decimal(code_or(code, -1)) + ")."@
                    + stream_shown(stderr@) + stream_shown(stdout@)
            },
            DiscoverError::Unparseable { stdout, stderr } => {
                "Could not parse the test list from `soteria-rust compile --list-tests`.\n  stdout: "@
                    + trimmed(stdout@) + "\n  stderr: "@ + trimmed(stderr@)
            },
        }
    }

    /// The diagnostic for this error. The compiler diagnostic soteria-rust emits
    /// (say a type error) lands on stdout; only the terse progress goes to
    /// stderr. Both are surfaced so the user sees the real error, not just an
    /// exit code.
    pub fn message(&self) -> (r: String)
        ensures
            r@ == self.shown(),
    {
        match self {
            DiscoverError::Spawn(e) => {
                let mut msg = "Failed to run soteria-rust: ".to_owned();
                msg.append(e.as_str());
                msg
            },
            DiscoverError::Failed { code, stdout, stderr } => {
                let shown_code: i32 = match code {
                    Some(c) => *c,
                    None => -1,
                };
                let mut msg = "Test discovery failed (exit ".to_owned();
                msg.append(signed_text(shown_code).as_str());
                msg.append(").");
                append_stream(&mut msg, stderr.as_str());
                append_stream(&mut msg, stdout.as_str());
                msg
            },
            DiscoverError::Unparseable { stdout, stderr } => {
                let mut msg =
                    "Could not parse the test list from `soteria-rust compile --list-tests`.\n  stdout: ".to_owned();
                msg.append(trim(stdout.as_str()));
                msg.append("\n  stderr: ");
                msg.append(trim(stderr.as_str()));
                msg
            },
        }
    }
}

/// Append a stream of a failed run to a message.
fn append_stream(msg: &mut String, stream: &str)
    ensures
        final(msg)@ == old(msg)@ + stream_shown(stream@),
{
    let text = trim(stream);
    if !text.is_empty() {
        msg.append("\n");
        msg.append(text);
    }
}

/// The crate directory passed into soteria-rust.
pub fn crate_dir(work_dir: Option<&str>) -> (r: &str)
    ensures
        r@ == (match work_dir {
            Some(d) => d@,
            None => "."@,
        }),
{
    match work_dir {
        Some(d) => d,
        None => ".",
    }
}

/// The arguments of the discovery run.
pub open spec fn discovery_args(
    work_dir: Option<Seq<char>>,
    args: Seq<Seq<char>>,
) -> Seq<Seq<char>> {
    seq![
        "compile"@,
        "--list-tests"@,
        match work_dir {
            Some(d) => d,
            None => "."@,
        },
    ] + args
}

/// The arguments with which `soteria-rust` compiles the crate in `work_dir` (the
/// current directory by default) and lists its symbolic-test entry points.
/// `args` carries the target selection and mode (`--test`, `--kani`) and the
/// forwarded user flags, so the listing matches what the run phase analyses.
pub fn discover_args(work_dir: Option<&str>, args: &[String]) -> (r: Vec<String>)
    ensures
        texts(r@) == discovery_args(opt_text(work_dir), texts(args@)),
{
    let mut out: Vec<String> = Vec::new();
    out.push("compile".to_owned());
    out.push("--list-tests".to_owned());
    out.push(crate_dir(work_dir).to_owned());
    append_all(&mut out, args);
    out
}

/// Append copies of `more` to `out`.
pub(crate) fn append_all(out: &mut Vec<String>, more: &[String])
    ensures
        texts(final(out)@) == texts(old(out)@) + texts(more@),
{
    let n: usize = more.len();
    for i in 0..n
        invariant
            n == more@.len(),
            texts(out@) == texts(old(out)@) + texts(more@).take(i as int),
    {
        let ghost before = out@;
        let text = more[i].clone();
        out.push(text);
        assert(texts(out@) == texts(before).push(text@));
        assert(texts(more@).take(i as int + 1) == texts(more@).take(i as int).push(text@));
    }
    assert(texts(more@).take(n as int) == texts(more@));
}

/// What a process left behind when it ended. A process that a signal ended has
/// no exit code.
pub struct ProcessOutput {
    pub code: Option<i32>,
    pub stdout: Vec<u8>,
    pub stderr: Vec<u8>,
}

/// Whether a process with this exit code succeeded.
pub fn succeeded(code: Option<i32>) -> (r: bool)
    ensures
        r == (code == Some(0i32)),
{
    match code {
        Some(c) => c == 0,
        None => false,
    }
}

/// The lines of `stdout`, last first, without outer white space, that begin like
/// a JSON array.
pub open spec fn list_lines(all: Seq<Seq<char>>) -> Seq<Seq<char>>
    decreases all.len(),
{
    if all.len() == 0 {
        seq![]
    } else {
        let rest = list_lines(all.drop_last());
        let line = trimmed(all.last());
        if starts_with(line, "["@) {
            seq![line] + rest
        } else {
            rest
        }
    }
}

/// The texts in which a test list is looked for, in the order in which they are
/// tried: the whole output, then its lines from the last to the first.
pub open spec fn list_candidates(stdout: Seq<char>) -> Seq<Seq<char>> {
    seq![trimmed(stdout)] + list_lines(lines(stdout))
}

/// The first of some results that is there.
pub open spec fn first_some<T>(results: Seq<Option<T>>) -> Option<T>
    decreases results.len(),
{
    if results.len() == 0 {
        None
    } else if results[0] is Some {
        results[0]
    } else {
        first_some(results.skip(1))
    }
}

/// The texts in which the test list is looked for. The whole stdout is normally
/// one line; stray output is tolerated by falling back to the last line that
/// parses.
pub fn test_list_candidates(stdout: &str) -> (r: Vec<String>)
    ensures
        texts(r@) == list_candidates(stdout@),
{
    let mut out: Vec<String> = Vec::new();
    out.push(trim(stdout).to_owned());
    let all = lines_of(stdout);
    let mut i: usize = all.len();
    let ghost views = texts(all@);
    assert(texts(out@) == seq![trimmed(stdout@)]);
    assert(views.take(i as int) == views);
    while i > 0
        invariant
            i <= all@.len(),
            views == texts(all@),
            views == lines(stdout@),
            texts(out@) + list_lines(views.take(i as int)) == list_candidates(stdout@),
        decreases i,
    {
        i = i - 1;
        let line = trim(all[i].as_str());
        let ghost before = out@;
        proof {
            let part = views.take(i as int + 1);
            assert(part.drop_last() == views.take(i as int));
            assert(part.last() == all@[i as int]@);
        }
        if has_prefix(line, "[") {
            let text = line.to_owned();
            out.push(text);
            proof {
                assert(texts(out@) == texts(before).push(text@));
                assert(texts(before) + (seq![text@] + list_lines(views.take(i as int))) == texts(out@)
                    + list_lines(views.take(i as int)));
            }
        }
    }
    out
}

/// The lists that some candidates turned out to be.
pub open spec fn opt_lists(results: Seq<Option<Vec<String>>>) -> Seq<Option<Seq<Seq<char>>>> {
    results.map_values(|r: Option<Vec<String>>| opt_texts(r))
}

/// The first list among what the candidates turned out to be.
pub fn first_list(results: Vec<Option<Vec<String>>>) -> (r: Option<Vec<String>>)
    ensures
        opt_texts(r) == first_some(opt_lists(results@)),
{
    let n: usize = results.len();
    let ghost views = opt_lists(results@);
    assert(views.skip(0) == views);
    let mut i: usize = 0;
    while i < n
        invariant
            n == results@.len(),
            views == opt_lists(results@),
            i <= n,
            first_some(views.skip(i as int)) == first_some(views),
        decreases n - i,
    {
        assert(views.skip(i as int)[0] == opt_texts(results@[i as int]));
        if let Some(list) = &results[i] {
            let mut out: Vec<String> = Vec::new();
            append_all(&mut out, list.as_slice());
            assert(texts(out@) == texts(list@));
            return Some(out);
        }
        assert(views.skip(i as int).skip(1) == views.skip(i as int + 1));
        i = i + 1;
    }
    None
}

/// The test list in the output of a discovery run, if there is one.
pub open spec fn listed_tests(stdout: Seq<char>) -> Option<Seq<Seq<char>>> {
    first_some(list_candidates(stdout).map_values(|s: Seq<char>| json_string_array(s)))
}

/// Parse the JSON array of test names. The whole stdout is normally one line;
/// stray output is tolerated by falling back to the last line that parses.
pub fn parse_test_list(stdout: &str) -> (r: Option<Vec<String>>)
    ensures
        opt_texts(r) == listed_tests(stdout@),
{
    let candidates = test_list_candidates(stdout);
    let mut results: Vec<Option<Vec<String>>> = Vec::new();
    let n: usize = candidates.len();
    let ghost decoded = texts(candidates@).map_values(|s: Seq<char>| json_string_array(s));
    for i in 0..n
        invariant
            n == candidates@.len(),
            decoded == texts(candidates@).map_values(|s: Seq<char>| json_string_array(s)),
            opt_lists(results@) == decoded.take(i as int),
    {
        let result = strings_from_json(candidates[i].as_str()).ok();
        let ghost before = results@;
        results.push(result);
        assert(opt_lists(results@) == opt_lists(before).push(opt_texts(result)));
        assert(decoded.take(i as int + 1) == decoded.take(i as int).push(decoded[i as int]));
        assert(decoded[i as int] == opt_texts(result));
    }
    assert(decoded.take(n as int) == decoded);
    first_list(results)
}

/// What a discovery amounts to.
#[verifier::ext_equal]
pub enum DiscoveryModel {
    Tests(Seq<Seq<char>>),
    NotStarted(Seq<char>),
    Failed(Option<i32>, Seq<char>, Seq<char>),
    Unparseable(Seq<char>, Seq<char>),
}

pub open spec fn discovery_model(r: Result<Vec<String>, DiscoverError>) -> DiscoveryModel {
    match r {
        Ok(tests) => DiscoveryModel::Tests(texts(tests@)),
        Err(DiscoverError::Spawn(e)) => DiscoveryModel::NotStarted(e@),
        Err(DiscoverError::Failed { code, stdout, stderr }) => DiscoveryModel::Failed(
            code,
            stdout@,
            stderr@,
        ),
        Err(DiscoverError::Unparseable { stdout, stderr }) => DiscoveryModel::Unparseable(
            stdout@,
            stderr@,
        ),
    }
}

/// What a discovery run that ended amounts to, given the list found in its output.
pub open spec fn ended_discovery(
    list: Option<Seq<Seq<char>>>,
    code: Option<i32>,
    stdout: Seq<char>,
    stderr: Seq<char>,
) -> DiscoveryModel {
    match list {
        Some(tests) => DiscoveryModel::Tests(tests),
        None => if code == Some(0i32) {
            DiscoveryModel::Unparseable(stdout, stderr)
        } else {
            DiscoveryModel::Failed(code, stdout, stderr)
        },
    }
}

/// What a discovery run amounts to.
pub open spec fn discovery(run: Result<ProcessOutput, String>) -> DiscoveryModel {
    match run {
        Err(e) => DiscoveryModel::NotStarted(e@),
        Ok(output) => ended_discovery(
            listed_tests(utf8_lossy(output.stdout@)),
            output.code,
            utf8_lossy(output.stdout@),
            utf8_lossy(output.stderr@),
        ),
    }
}

/// A list of tests counts whatever the exit code is. Without one, a run that succeeded is
/// told apart from one that failed, and what it printed and its code are kept; a run that
/// did not start is told by the reason.
pub proof fn law_discovery(
    tests: Seq<Seq<char>>,
    code: Option<i32>,
    stdout: Seq<char>,
    stderr: Seq<char>,
    output: ProcessOutput,
    reason: String,
)
    ensures
        ended_discovery(Some(tests), code, stdout, stderr) == DiscoveryModel::Tests(tests),
        ended_discovery(None, code, stdout, stderr) == DiscoveryModel::Unparseable(stdout, stderr)
            <==> code == Some(0i32),
        ended_discovery(None, code, stdout, stderr) == DiscoveryModel::Failed(code, stdout, stderr)
            <==> code != Some(0i32),
        discovery(Ok(output)) is Tests <==> listed_tests(utf8_lossy(output.stdout@)) is Some,
        discovery(Ok(output)) matches DiscoveryModel::Tests(found) ==> listed_tests(
            utf8_lossy(output.stdout@),
        ) == Some(found),
        discovery(Ok(output)) matches DiscoveryModel::Failed(c, out, err) ==> c == output.code
            && out == utf8_lossy(output.stdout@) && err == utf8_lossy(output.stderr@) && c != Some(
            0i32,
        ),
        discovery(Err(reason)) == DiscoveryModel::NotStarted(reason@),
{
}

/// What a discovery run that ended amounts to, given the list found in its
/// output. A list counts whatever the exit code.
pub fn discovered(list: Option<Vec<String>>, code: Option<i32>, stdout: String, stderr: String) -> (r: Result<
    Vec<String>,
    DiscoverError,
>)
    ensures
        match list {
            Some(tests) => r == Ok::<Vec<String>, DiscoverError>(tests),
            None => if code == Some(0i32) {
                r == Err::<Vec<String>, DiscoverError>(DiscoverError::Unparseable { stdout, stderr })
            } else {
                r == Err::<Vec<String>, DiscoverError>(DiscoverError::Failed { code, stdout, stderr })
            },
        },
        discovery_model(r) == ended_discovery(opt_texts(list), code, stdout@, stderr@),
{
    if let Some(tests) = list {
        return Ok(tests);
    }
    if !succeeded(code) {
        return Err(DiscoverError::Failed { code, stdout, stderr });
    }
    Err(DiscoverError::Unparseable { stdout, stderr })
}

/// What a discovery run amounts to: the run itself, or the reason for which it
/// could not be started.
pub fn discover_tests(run: Result<ProcessOutput, String>) -> (r: Result<Vec<String>, DiscoverError>)
    ensures
        match run {
            Err(e) => r == Err::<Vec<String>, DiscoverError>(DiscoverError::Spawn(e)),
            Ok(output) => match listed_tests(utf8_lossy(output.stdout@)) {
                Some(tests) => r matches Ok(v) && texts(v@) == tests,
                None => if output.code == Some(0i32) {
                    r matches Err(DiscoverError::Unparseable { stdout, stderr }) && stdout@
                        == utf8_lossy(output.stdout@) && stderr@ == utf8_lossy(output.stderr@)
                } else {
                    r matches Err(DiscoverError::Failed { code, stdout, stderr }) && code
                        == output.code && stdout@ == utf8_lossy(output.stdout@) && stderr@
                        == utf8_lossy(output.stderr@)
                },
            },
        },
        discovery_model(r) == discovery(run),
{
    match run {
        Err(e) => Err(DiscoverError::Spawn(e)),
        Ok(output) => {
            let stdout = text_from_bytes(output.stdout.as_slice());
            let stderr = text_from_bytes(output.stderr.as_slice());
            let list = parse_test_list(stdout.as_str());
            discovered(list, output.code, stdout, stderr)
        },
    }
}

// ── isolating one test ────────────────────────────────────────────────────────

/// The characters that are special in an unescaped `Str` regex. `(` `)` `|` `{`
/// `}` are literal there (only special when backslash-escaped).
pub open spec fn is_str_meta(c: char) -> bool {
    c == '.' || c == '*' || c == '+' || c == '?' || c == '[' || c == ']' || c == '^' || c == '$' || c
        == '\\'
}

/// `name` with a backslash in front of each special character.
pub open spec fn str_escaped(name: Seq<char>) -> Seq<char>
    decreases name.len(),
{
    if name.len() == 0 {
        seq![]
    } else {
        let rest = str_escaped(name.drop_last());
        if is_str_meta(name.last()) {
            rest.push('\\').push(name.last())
        } else {
            rest.push(name.last())
        }
    }
}

/// The anchored filter for a test name.
pub open spec fn anchored(name: Seq<char>) -> Seq<char> {
    seq!['^'] + str_escaped(name) + seq!['$']
}

/// Build an anchored, escaped `Str` regex that matches exactly `name`.
/// soteria-rust's `--filter` is an OCaml `Str` substring regex, so without
/// anchoring `foo` would also select `foo_bar`.
pub fn anchored_filter(name: &str) -> (r: String)
    ensures
        r@ == anchored(name@),
{
    let cs = chars_of(name);
    let n: usize = cs.len();
    let mut out = String::new();
    out.push('^');
    assert(out@ == seq!['^'] + str_escaped(cs@.take(0)));
    for i in 0..n
        invariant
            n == cs@.len(),
            out@ == seq!['^'] + str_escaped(cs@.take(i as int)),
    {
        let c: char = cs[i];
        proof {
            let next = cs@.take(i as int + 1);
            assert(next.drop_last() == cs@.take(i as int));
            assert(next.last() == c);
        }
        if c == '.' || c == '*' || c == '+' || c == '?' || c == '[' || c == ']' || c == '^' || c == '$'
            || c == '\\' {
            out.push('\\');
        }
        out.push(c);
    }
    assert(cs@.take(n as int) == name@);
    out.push('$');
    out
}

/// The text that a `Str` regex stands for, where it is made of literal
/// characters alone: ordinary ones, and special ones behind a backslash.
pub open spec fn str_literal(regex: Seq<char>) -> Option<Seq<char>>
    decreases regex.len(),
{
    if regex.len() == 0 {
        Some(seq![])
    } else if regex[0] == '\\' {
        if regex.len() >= 2 && is_str_meta(regex[1]) {
            match str_literal(regex.skip(2)) {
                Some(rest) => Some(seq![regex[1]] + rest),
                None => None,
            }
        } else {
            None
        }
    } else if is_str_meta(regex[0]) {
        None
    } else {
        match str_literal(regex.skip(1)) {
            Some(rest) => Some(seq![regex[0]] + rest),
            None => None,
        }
    }
}

/// Whether the literal `text`, anchored on both sides, is found in `subject` from
/// `i` to `j`: the anchors hold at the ends of `subject` and at its line breaks.
pub open spec fn anchored_match(text: Seq<char>, subject: Seq<char>, i: int, j: int) -> bool {
    &&& 0 <= i <= j <= subject.len()
    &&& subject.subrange(i, j) == text
    &&& i == 0 || subject[i - 1] == '\n'
    &&& j == subject.len() || subject[j] == '\n'
}

/// Whether a filter of the form `^literal$` selects `subject`.
pub open spec fn selects(filter: Seq<char>, subject: Seq<char>) -> bool {
    &&& filter.len() >= 2
    &&& filter[0] == '^'
    &&& filter.last() == '$'
    &&& match str_literal(filter.subrange(1, filter.len() - 1)) {
        Some(text) => exists|i: int, j: int| anchored_match(text, subject, i, j),
        None => false,
    }
}

proof fn lemma_literal_concat(a: Seq<char>, b: Seq<char>)
    requires
        str_literal(a) is Some,
        str_literal(b) is Some,
    ensures
        str_literal(a + b) == Some(str_literal(a)->0 + str_literal(b)->0),
    decreases a.len(),
{
    if a.len() == 0 {
        assert(a + b == b);
        assert(str_literal(a)->0 + str_literal(b)->0 == str_literal(b)->0);
    } else {
        let k: int = if a[0] == '\\' {
            2
        } else {
            1
        };
        lemma_literal_concat(a.skip(k), b);
        assert((a + b).skip(k) == a.skip(k) + b);
        let head = if k == 2 {
            seq![a[1]]
        } else {
            seq![a[0]]
        };
        assert(str_literal(a)->0 == head + str_literal(a.skip(k))->0);
        assert(head + (str_literal(a.skip(k))->0 + str_literal(b)->0) == str_literal(a)->0
            + str_literal(b)->0);
    }
}

proof fn lemma_escaped_is_literal(name: Seq<char>)
    ensures
        str_literal(str_escaped(name)) == Some(name),
    decreases name.len(),
{
    if name.len() == 0 {
        assert(name == Seq::<char>::empty());
    } else {
        let c = name.last();
        let rest = name.drop_last();
        lemma_escaped_is_literal(rest);
        let tail = if is_str_meta(c) {
            seq!['\\', c]
        } else {
            seq![c]
        };
        assert(str_literal(tail) == Some(seq![c])) by {
            let k: int = tail.len() as int;
            assert(tail.skip(k) == Seq::<char>::empty());
            assert(str_literal(tail.skip(k)) == Some(Seq::<char>::empty()));
            assert(seq![c] + Seq::<char>::empty() == seq![c]);
        }
        lemma_literal_concat(str_escaped(rest), tail);
        assert(str_escaped(name) == str_escaped(rest) + tail);
        assert(rest + seq![c] == name);
    }
}

/// The filter for a test selects that test and no other: a test name, which has
/// no line break in it, is selected exactly where it is the name the filter was
/// made for.
pub proof fn law_filter_isolates_one_test(name: Seq<char>, other: Seq<char>)
    requires
        !other.contains('\n'),
    ensures
        selects(anchored(name), other) <==> other == name,
{
    let filter = anchored(name);
    lemma_escaped_is_literal(name);
    assert(filter.subrange(1, filter.len() - 1) == str_escaped(name));
    if other == name {
        assert(other.subrange(0, other.len() as int) == name);
        assert(anchored_match(name, other, 0, other.len() as int));
        assert(filter[0] == '^' && filter.last() == '$');
        assert(str_literal(filter.subrange(1, filter.len() - 1))->0 == name);
        assert(selects(filter, other));
    }
    if selects(filter, other) {
        let (i, j) = choose|i: int, j: int| anchored_match(name, other, i, j);
        assert(i == 0) by {
            if i > 0 {
                assert(other.contains(other[i - 1]));
            }
        }
        assert(j == other.len()) by {
            if j < other.len() {
                assert(other.contains(other[j]));
            }
        }
        assert(other.subrange(0, other.len() as int) == other);
    }
}

// ── what the environment is for ───────────────────────────────────────────────

/// The operating system decides nothing but the name of the variable for the library
/// path.
pub proof fn law_system_decides_only_the_library_variable(
    package: Seq<char>,
    existing: Seq<char>,
    set: ToolOverrides,
    i: int,
)
    requires
        0 <= i < tool_env(package, true, existing, set).len(),
    ensures
        tool_env(package, true, existing, set).len() == tool_env(
            package,
            false,
            existing,
            set,
        ).len(),
        tool_env(package, true, existing, set)[i].1 == tool_env(
            package,
            false,
            existing,
            set,
        )[i].1,
        i > 0 ==> tool_env(package, true, existing, set)[i].0 == tool_env(
            package,
            false,
            existing,
            set,
        )[i].0,
        tool_env(package, true, existing, set)[0].0 == "DYLD_LIBRARY_PATH"@,
        tool_env(package, false, existing, set)[0].0 == "LD_LIBRARY_PATH"@,
{
}

/// What a variable is set to in an environment, where it is set exactly once.
pub open spec fn env_value(env: Seq<(Seq<char>, Seq<char>)>, var: Seq<char>, value: Seq<char>) -> bool {
    exists|i: int|
        0 <= i < env.len() && (#[trigger] env[i]).0 == var && env[i].1 == value && forall|j: int|
            0 <= j < env.len() && j != i ==> (#[trigger] env[j]).0 != var
}

/// Each tool is found in the `bin` directory of the package and the plugins in its
/// `plugins` directory, unless the user has set another place; then it is found there.
pub proof fn law_tools_are_found(
    package: Seq<char>,
    macos: bool,
    existing: Seq<char>,
    set: ToolOverrides,
)
    requires
        package.len() > 0,
        package.last() != '/',
    ensures
        env_value(
            tool_env(package, macos, existing, set),
            "SOTERIA_Z3_PATH"@,
            if set.z3 is Some {
                set.z3->0@
            } else {
                package + "/bin/z3"@
            },
        ),
        env_value(
            tool_env(package, macos, existing, set),
            "SOTERIA_OBOL_PATH"@,
            if set.obol is Some {
                set.obol->0@
            } else {
                package + "/bin/obol"@
            },
        ),
        env_value(
            tool_env(package, macos, existing, set),
            "SOTERIA_CHARON_PATH"@,
            if set.charon is Some {
                set.charon->0@
            } else {
                package + "/bin/charon"@
            },
        ),
        env_value(
            tool_env(package, macos, existing, set),
            "SOTERIA_RUST_PLUGINS"@,
            if set.plugins is Some {
                set.plugins->0@
            } else {
                package + "/plugins"@
            },
        ),
        tool_path(package, "soteria-rust"@) == package + "/bin/soteria-rust"@,
{
    let env = tool_env(package, macos, existing, set);
    lemma_variables(package, macos, existing, set);
    assert("/bin/z3"@ == "/bin/"@ + "z3"@) by {
        reveal_strlit("z3");
        reveal_strlit("/bin/");
        reveal_strlit("/bin/z3");
    }
    assert("/bin/obol"@ == "/bin/"@ + "obol"@) by {
        reveal_strlit("obol");
        reveal_strlit("/bin/");
        reveal_strlit("/bin/obol");
    }
    assert("/bin/charon"@ == "/bin/"@ + "charon"@) by {
        reveal_strlit("charon");
        reveal_strlit("/bin/");
        reveal_strlit("/bin/charon");
    }
    assert("/bin/soteria-rust"@ == "/bin/"@ + "soteria-rust"@) by {
        reveal_strlit("soteria-rust");
        reveal_strlit("/bin/");
        reveal_strlit("/bin/soteria-rust");
    }
    lemma_tool_at(package, "z3"@);
    lemma_tool_at(package, "obol"@);
    lemma_tool_at(package, "charon"@);
    lemma_tool_at(package, "soteria-rust"@);
    assert(path_joined(package, "plugins"@) == package + "/plugins"@) by {
        reveal_strlit("/");
        reveal_strlit("plugins");
        reveal_strlit("/plugins");
        assert(package + "/"@ + "plugins"@ == package + "/plugins"@);
    }
    assert(tool_path(package, "z3"@) == env[1].1 || set.z3 is Some);
    assert(tool_path(package, "obol"@) == env[2].1 || set.obol is Some);
    assert(tool_path(package, "charon"@) == env[3].1 || set.charon is Some);
    assert(path_joined(package, "plugins"@) == env[4].1 || set.plugins is Some);
}

/// The variables are five, each with a name of its own.
proof fn lemma_variables(
    package: Seq<char>,
    macos: bool,
    existing: Seq<char>,
    set: ToolOverrides,
)
    ensures
        ({
            let env = tool_env(package, macos, existing, set);
            &&& env.len() == 5
            &&& env[1].0 == "SOTERIA_Z3_PATH"@
            &&& env[2].0 == "SOTERIA_OBOL_PATH"@
            &&& env[3].0 == "SOTERIA_CHARON_PATH"@
            &&& env[4].0 == "SOTERIA_RUST_PLUGINS"@
            &&& forall|i: int, j: int|
                0 <= i < j < 5 ==> (#[trigger] env[i]).0 != (#[trigger] env[j]).0
        }),
{
    let env = tool_env(package, macos, existing, set);
    reveal_strlit("SOTERIA_Z3_PATH");
    reveal_strlit("SOTERIA_OBOL_PATH");
    reveal_strlit("SOTERIA_CHARON_PATH");
    reveal_strlit("SOTERIA_RUST_PLUGINS");
    reveal_strlit("DYLD_LIBRARY_PATH");
    reveal_strlit("LD_LIBRARY_PATH");
    assert(env[0].0[0] != 'S');
    assert(env[1].0[8] == 'Z' && env[2].0[8] == 'O' && env[3].0[8] == 'C' && env[4].0[8] == 'R');
    assert(env[1].0[0] == 'S' && env[2].0[0] == 'S' && env[3].0[0] == 'S' && env[4].0[0] == 'S');
}

/// A program lies in the `bin` directory of the package.
proof fn lemma_tool_at(package: Seq<char>, tool: Seq<char>)
    requires
        package.len() > 0,
        package.last() != '/',
    ensures
        tool.len() > 0 && tool[0] != '/' ==> tool_path(package, tool) == package + ("/bin/"@ + tool),
        "z3"@.len() > 0 && "z3"@[0] != '/',
        "obol"@.len() > 0 && "obol"@[0] != '/',
        "charon"@.len() > 0 && "charon"@[0] != '/',
        "soteria-rust"@.len() > 0 && "soteria-rust"@[0] != '/',
{
    reveal_strlit("z3");
    reveal_strlit("obol");
    reveal_strlit("charon");
    reveal_strlit("soteria-rust");
    reveal_strlit("/");
    reveal_strlit("bin");
    reveal_strlit("/bin/");
    if tool.len() > 0 && tool[0] != '/' {
        let bin = path_joined(package, "bin"@);
        assert(bin == package + "/"@ + "bin"@);
        assert(bin.last() == 'n');
        assert(tool_path(package, tool) == bin + "/"@ + tool);
        assert(bin + "/"@ + tool == package + ("/bin/"@ + tool));
    }
}

/// The bundled libraries are looked through first, and then what was looked through
/// before.
pub proof fn law_bundled_libraries_first(
    package: Seq<char>,
    macos: bool,
    existing: Seq<char>,
    set: ToolOverrides,
)
    requires
        package.len() > 0,
        package.last() != '/',
    ensures
        existing.len() == 0 ==> tool_env(package, macos, existing, set)[0].1 == package + "/lib"@,
        existing.len() > 0 ==> tool_env(package, macos, existing, set)[0].1 == package + "/lib:"@
            + existing,
{
    reveal_strlit("/");
    reveal_strlit("lib");
    reveal_strlit("/lib");
    reveal_strlit(":");
    reveal_strlit("/lib:");
    assert(path_joined(package, "lib"@) == package + "/lib"@);
    assert(package + "/lib"@ + ":"@ + existing == package + "/lib:"@ + existing);
}

/// What the user sets for one tool changes that variable and no other.
pub proof fn law_an_override_changes_one_variable(
    package: Seq<char>,
    macos: bool,
    existing: Seq<char>,
    set: ToolOverrides,
    other: ToolOverrides,
)
    ensures
        ({
            let a = tool_env(package, macos, existing, set);
            let b = tool_env(package, macos, existing, other);
            &&& set.z3 == other.z3 ==> a[1] == b[1]
            &&& set.obol == other.obol ==> a[2] == b[2]
            &&& set.charon == other.charon ==> a[3] == b[3]
            &&& set.plugins == other.plugins ==> a[4] == b[4]
            &&& a[0] == b[0]
            &&& a.len() == b.len() == 5
        }),
{
}

// ── what discovery finds ──────────────────────────────────────────────────────

/// Whether a line, without outer white space, is a JSON array of strings.
pub open spec fn is_list_line(line: Seq<char>) -> bool {
    let text = trimmed(line);
    text.len() > 0 && text[0] == '[' && json_string_array(text) is Some
}

/// An output that is a list as a whole is that list. Otherwise the last line that is a
/// list is taken, whatever stands around it; and where there is none, nothing is.
pub proof fn law_test_list(stdout: Seq<char>, n: int)
    ensures
        json_string_array(trimmed(stdout)) is Some ==> listed_tests(stdout) == json_string_array(
            trimmed(stdout),
        ),
        json_string_array(trimmed(stdout)) is None && 0 <= n < lines(stdout).len() && is_list_line(
            lines(stdout)[n],
        ) && (forall|k: int|
            n < k < lines(stdout).len() ==> !is_list_line(#[trigger] lines(stdout)[k])) ==> listed_tests(
            stdout,
        ) == json_string_array(trimmed(lines(stdout)[n])),
        json_string_array(trimmed(stdout)) is None && (forall|k: int|
            0 <= k < lines(stdout).len() ==> !is_list_line(#[trigger] lines(stdout)[k]))
            ==> listed_tests(stdout) is None,
{
    let decode = |s: Seq<char>| json_string_array(s);
    let all = lines(stdout);
    let results = list_candidates(stdout).map_values(decode);
    assert(results[0] == json_string_array(trimmed(stdout)));
    assert(results.skip(1) == list_lines(all).map_values(decode));
    if json_string_array(trimmed(stdout)) is None {
        if 0 <= n < all.len() && is_list_line(all[n]) && (forall|k: int|
            n < k < all.len() ==> !is_list_line(#[trigger] all[k])) {
            lemma_last_list_line(all, n);
        }
        if forall|k: int| 0 <= k < all.len() ==> !is_list_line(#[trigger] all[k]) {
            lemma_no_list_line(all);
        }
    }
}

proof fn lemma_line_begins(line: Seq<char>)
    ensures
        starts_with(line, "["@) <==> line.len() > 0 && line[0] == '[',
{
    reveal_strlit("[");
    assert("["@ == seq!['[']);
    if line.len() > 0 {
        assert(line.take(1)[0] == line[0]);
        if line[0] == '[' {
            assert(line.take(1) == seq!['[']);
        }
    }
}

proof fn lemma_last_list_line(all: Seq<Seq<char>>, n: int)
    requires
        0 <= n < all.len(),
        is_list_line(all[n]),
        forall|k: int| n < k < all.len() ==> !is_list_line(#[trigger] all[k]),
    ensures
        first_some(list_lines(all).map_values(|s: Seq<char>| json_string_array(s)))
            == json_string_array(trimmed(all[n])),
    decreases all.len(),
{
    let decode = |s: Seq<char>| json_string_array(s);
    let line = trimmed(all.last());
    let front = all.drop_last();
    lemma_line_begins(line);
    assert(all.last() == all[all.len() - 1]);
    let results = list_lines(all).map_values(decode);
    if n == all.len() - 1 {
        assert(results[0] == json_string_array(line));
    } else {
        assert forall|k: int| n < k < front.len() implies !is_list_line(#[trigger] front[k]) by {
            assert(front[k] == all[k]);
        }
        assert(front[n] == all[n]);
        lemma_last_list_line(front, n);
        if starts_with(line, "["@) {
            assert(results[0] == json_string_array(line));
            assert(results.skip(1) == list_lines(front).map_values(decode));
        }
    }
}

proof fn lemma_no_list_line(all: Seq<Seq<char>>)
    requires
        forall|k: int| 0 <= k < all.len() ==> !is_list_line(#[trigger] all[k]),
    ensures
        first_some(list_lines(all).map_values(|s: Seq<char>| json_string_array(s))) is None,
    decreases all.len(),
{
    let decode = |s: Seq<char>| json_string_array(s);
    if all.len() > 0 {
        let line = trimmed(all.last());
        let front = all.drop_last();
        lemma_line_begins(line);
        assert(!is_list_line(all[all.len() - 1]));
        assert forall|k: int| 0 <= k < front.len() implies !is_list_line(#[trigger] front[k]) by {
            assert(front[k] == all[k]);
        }
        lemma_no_list_line(front);
        let results = list_lines(all).map_values(decode);
        if starts_with(line, "["@) {
            assert(results[0] == json_string_array(line));
            assert(results.skip(1) == list_lines(front).map_values(decode));
        }
    }
}

/// The message for a failed discovery has the exit code in it and ends with what the
/// compiler printed: the standard error first and the standard output after it, each on
/// lines of its own and without outer white space. A blank stream leaves nothing.
pub proof fn law_failure_shows_both_streams(code: i32, stdout: String, stderr: String)
    ensures
        ({
            let shown = DiscoverError::Failed { code: Some(code), stdout, stderr }.shown();
            let unknown = DiscoverError::Failed { code: None, stdout, stderr }.shown();
            let minus_one = DiscoverError::Failed { code: Some(-1i32), stdout, stderr }.shown();
            let (out, err) = (trimmed(stdout@), trimmed(stderr@));
            &&& exists|tail: Seq<char>|
                shown == #[trigger] ("Test discovery failed (exit "@ + signed_decimal(code as int)
                    + tail)
            &&& unknown == minus_one
            &&& out.len() > 0 && err.len() > 0 ==> ends_with(
                shown,
                seq!['\n'] + err + seq!['\n'] + out,
            )
            &&& out.len() > 0 && err.len() == 0 ==> ends_with(shown, ").\n"@ + out)
            &&& out.len() == 0 && err.len() > 0 ==> ends_with(shown, ").\n"@ + err)
            &&& out.len() == 0 && err.len() == 0 ==> ends_with(shown, ")."@)
        }),
{
    reveal_strlit("\n");
    reveal_strlit(").");
    reveal_strlit(").\n");
    assert("\n"@ == seq!['\n']);
    assert(").\n"@ == ")."@ + seq!['\n']);
    let shown = DiscoverError::Failed { code: Some(code), stdout, stderr }.shown();
    let (out, err) = (trimmed(stdout@), trimmed(stderr@));
    let head = "Test discovery failed (exit "@ + signed_decimal(code as int);
    let tail = ")."@ + stream_shown(stderr@) + stream_shown(stdout@);
    assert(shown == head + tail);
    let end = if out.len() > 0 && err.len() > 0 {
        seq!['\n'] + err + seq!['\n'] + out
    } else if out.len() > 0 {
        ").\n"@ + out
    } else if err.len() > 0 {
        ").\n"@ + err
    } else {
        ")."@
    };
    assert(shown.skip(shown.len() - end.len()) == end);
}

/// The message for a list that cannot be read shows both streams, and the message for a
/// run that could not be started ends with the reason.
pub proof fn law_other_failures_shown(reason: String, stdout: String, stderr: String)
    ensures
        ends_with(DiscoverError::Spawn(reason).shown(), reason@),
        ends_with(
            DiscoverError::Unparseable { stdout, stderr }.shown(),
            "\n  stdout: "@ + trimmed(stdout@) + "\n  stderr: "@ + trimmed(stderr@),
        ),
{
    let spawn = DiscoverError::Spawn(reason).shown();
    assert(spawn.skip(spawn.len() - reason@.len()) == reason@);
    reveal_strlit(
        "Could not parse the test list from `soteria-rust compile --list-tests`.\n  stdout: ",
    );
    reveal_strlit("\n  stdout: ");
    let shown = DiscoverError::Unparseable { stdout, stderr }.shown();
    let end = "\n  stdout: "@ + trimmed(stdout@) + "\n  stderr: "@ + trimmed(stderr@);
    assert(shown.skip(shown.len() - end.len()) == end);
}

/// Discovery is given the crate directory, and behind it every argument of the user in
/// order; what stands in front does not depend on them.
pub proof fn law_discovery_args(
    work_dir: Option<Seq<char>>,
    dir: Seq<char>,
    args: Seq<Seq<char>>,
    others: Seq<Seq<char>>,
)
    ensures
        discovery_args(work_dir, args + others) == discovery_args(work_dir, args) + others,
        discovery_args(Some(dir), seq![]).last() == dir,
        discovery_args(None, args) == discovery_args(Some("."@), args),
        discovery_args(Some(dir), args).take(2) == discovery_args(None, seq![]).take(2),
        discovery_args(work_dir, args).len() == args.len() + 3,
{
    assert(discovery_args(work_dir, args + others) =~= discovery_args(work_dir, args) + others);
    assert(discovery_args(Some(dir), args).take(2) =~= discovery_args(None, seq![]).take(2));
}

/// A name is escaped character by character: these nine get a backslash in front, and
/// every other one stands for itself.
pub proof fn law_escaped_characters(a: Seq<char>, b: Seq<char>, c: char)
    ensures
        str_escaped(a + b) == str_escaped(a) + str_escaped(b),
        str_escaped(seq![c]) == if ".*+?[]^$\\"@.contains(c) {
            seq!['\\', c]
        } else {
            seq![c]
        },
    decreases b.len(),
{
    reveal_strlit(".*+?[]^$\\");
    let special = ".*+?[]^$\\"@;
    let one = seq![c];
    assert(one.drop_last() == Seq::<char>::empty());
    assert(str_escaped(one.drop_last()) == Seq::<char>::empty());
    assert(is_str_meta(c) <==> special.contains(c)) by {
        assert(special[0] == '.' && special[1] == '*' && special[2] == '+' && special[3] == '?'
            && special[4] == '[' && special[5] == ']' && special[6] == '^' && special[7] == '$'
            && special[8] == '\\' && special.len() == 9);
        if special.contains(c) {
            let i = choose|i: int| 0 <= i < special.len() && special[i] == c;
            assert(special[i] == c);
        }
    }
    if b.len() == 0 {
        assert(a + b == a);
        assert(str_escaped(b) == Seq::<char>::empty());
    } else {
        law_escaped_characters(a, b.drop_last(), c);
        assert((a + b).drop_last() == a + b.drop_last());
        assert((a + b).last() == b.last());
    }
    assert(str_escaped(a + b) =~= str_escaped(a) + str_escaped(b));
    assert(str_escaped(one) =~= if special.contains(c) {
        seq!['\\', c]
    } else {
        seq![c]
    });
}

} // verus!
