//! `cargo soteria nextest`: drive cargo-nextest against Soteria's symbolic
//! tests.
//!
//! Soteria's tests are compiled and executed by `soteria-rust`, not by libtest,
//! so a native nextest build of the crate sees no tests. The gap is bridged by
//! running `cargo nextest` with this program injected as cargo's
//! `target.runner`, with an explicit `--target` so that the runner fires.
//! nextest then invokes the runner in both of its phases:
//!
//! * list: `<runner> <bin> --list --format terse` becomes
//!   `soteria-rust compile --list-tests . [--test <t>]`, reprinted as
//!   `name: test`;
//! * run: `<runner> <bin> <name> --exact --nocapture` becomes
//!   `soteria-rust exec . --no-compile [--test <t>] --filter ^name$`.

use vstd::prelude::*;

use crate::json::{json_encoded, json_string_array, strings_from_json, strings_to_json};
use crate::runner_common::{
    anchored, anchored_filter, append_all, discover_args, discovery_args, succeeded, ProcessOutput,
};
use crate::targets::{profile_of, BinaryModel, ProbedBinary, TargetModel};
use crate::text::{
    chars_of, copy_range, ends_with, find_text, has_prefix, has_text, index_of, lemma_index_of, lemma_position_unique, lines, lines_of,
    opt_string, opt_text, opt_texts, same_text, starts_with, text_from_bytes, texts, trim, trimmed, utf8_lossy,
};

verus! {

/// The verb that marks this program as nextest's target runner (the second
/// element of the injected `runner` array).
pub const RUNNER_FLAG: &'static str = "__nextest-runner";

/// The variable that carries the soteria-rust flags from the `nextest` wrapper
/// down to the target runner, as a JSON array of strings.
pub const EXTRA_ARGS_ENV: &'static str = "__SOTERIA_NEXTEST_EXTRA_ARGS";

/// Nextest's binary ID variable, set for each probed binary in both phases.
pub const BINARY_ID_ENV: &'static str = "NEXTEST_BINARY_ID";

/// The variable that the wrapper sets to say whether the runner should filter to
/// the declared proof targets.
pub const USE_DEFAULT_TARGETS_ENV: &'static str = "SOTERIA_USE_DEFAULT_TARGETS";

/// The variable that the wrapper sets to the path of the shared `cargo metadata`
/// JSON where the runner filters to the declared proof targets.
pub const CARGO_METADATA_ENV: &'static str = "SOTERIA_CARGO_METADATA";

// ── the arguments of the wrapper ──────────────────────────────────────────────

/// The arguments before the first `--`.
pub open spec fn before_dashes(args: Seq<Seq<char>>) -> Seq<Seq<char>> {
    args.take(index_of(args, "--"@) as int)
}

/// The arguments after the first `--`.
pub open spec fn after_dashes(args: Seq<Seq<char>>) -> Seq<Seq<char>> {
    let i = index_of(args, "--"@) as int;
    if i < args.len() {
        args.skip(i + 1)
    } else {
        seq![]
    }
}

/// Split `cargo soteria nextest` args at the first `--`: `(before, after)`.
/// `before` goes to `cargo nextest`; `after` is the soteria-rust flag bag (empty
/// where there is no `--`).
pub fn split_soteria_args(args: &[String]) -> (r: (Vec<String>, Vec<String>))
    ensures
        texts(r.0@) == before_dashes(texts(args@)),
        texts(r.1@) == after_dashes(texts(args@)),
{
    let n: usize = args.len();
    let i: usize = find_text(args, "--");
    let ghost views = texts(args@);
    proof {
        lemma_index_of(views, "--"@);
        assert(views.subrange(0, i as int) == views.take(i as int));
    }
    let before = copy_range(args, 0, i);
    if i < n {
        assert(views.subrange(i as int + 1, n as int) == views.skip(i as int + 1));
        (before, copy_range(args, i + 1, n))
    } else {
        (before, Vec::new())
    }
}

/// Splitting loses nothing but the first `--`, and no `--` is left in front of
/// it: later ones stay among the soteria-rust flags.
pub proof fn law_split_at_first_dashes(args: Seq<Seq<char>>)
    ensures
        !before_dashes(args).contains("--"@),
        args.contains("--"@) ==> args == before_dashes(args) + seq!["--"@] + after_dashes(args),
        !args.contains("--"@) ==> args == before_dashes(args) && after_dashes(args).len() == 0,
{
    lemma_index_of(args, "--"@);
}

/// The flags that a value of [`EXTRA_ARGS_ENV`] carries: none where it is unset
/// or not an array of strings.
pub open spec fn carried_args(var: Option<Seq<char>>) -> Seq<Seq<char>> {
    match var {
        Some(text) => match json_string_array(text) {
            Some(args) => args,
            None => seq![],
        },
        None => seq![],
    }
}

/// The value of [`EXTRA_ARGS_ENV`] that carries `extra`.
pub fn encode_extra_args(extra: &[String]) -> (r: String)
    ensures
        r@ == json_encoded(texts(extra@)),
        carried_args(Some(r@)) == texts(extra@),
{
    match strings_to_json(extra) {
        Ok(s) => s,
        Err(_) => String::new(),
    }
}

/// The soteria-rust flags that the wrapper stashed in [`EXTRA_ARGS_ENV`], to be
/// forwarded to every soteria-rust invocation the runner makes.
pub fn extra_soteria_args(var: Option<&str>) -> (r: Vec<String>)
    ensures
        texts(r@) == carried_args(opt_text(var)),
{
    match var {
        Some(text) => match strings_from_json(text) {
            Ok(args) => args,
            Err(_) => Vec::new(),
        },
        None => Vec::new(),
    }
}

/// Whether an argument selects cargo targets.
pub open spec fn is_target_flag(a: Seq<char>) -> bool {
    ||| a == "--lib"@
    ||| a == "--bin"@
    ||| a == "--bins"@
    ||| a == "--test"@
    ||| a == "--tests"@
    ||| a == "--bench"@
    ||| a == "--benches"@
    ||| a == "--example"@
    ||| a == "--examples"@
    ||| a == "--all-targets"@
    ||| starts_with(a, "--bin="@)
    ||| starts_with(a, "--test="@)
    ||| starts_with(a, "--bench="@)
    ||| starts_with(a, "--example="@)
}

fn is_target_selection(a: &str) -> (r: bool)
    ensures
        r == is_target_flag(a@),
{
    same_text(a, "--lib") || same_text(a, "--bin") || same_text(a, "--bins") || same_text(a, "--test")
        || same_text(a, "--tests") || same_text(a, "--bench") || same_text(a, "--benches")
        || same_text(a, "--example") || same_text(a, "--examples") || same_text(a, "--all-targets")
        || has_prefix(a, "--bin=") || has_prefix(a, "--test=") || has_prefix(a, "--bench=")
        || has_prefix(a, "--example=")
}

/// Whether some arguments hold one that selects cargo targets.
pub open spec fn targets_selected(args: Seq<Seq<char>>) -> bool {
    exists|i: int| 0 <= i < args.len() && is_target_flag(#[trigger] args[i])
}

/// Whether the user already passed a cargo target-selection flag, in which case
/// the default targets are not used.
pub fn selects_targets(args: &[String]) -> (r: bool)
    ensures
        r == targets_selected(texts(args@)),
{
    let n: usize = args.len();
    for i in 0..n
        invariant
            n == args@.len(),
            forall|j: int| 0 <= j < i ==> !is_target_flag(#[trigger] texts(args@)[j]),
    {
        if is_target_selection(args[i].as_str()) {
            assert(is_target_flag(texts(args@)[i as int]));
            return true;
        }
    }
    false
}

// ── TOML strings ──────────────────────────────────────────────────────────────

/// `s` with a backslash in front of each backslash and quote.
pub open spec fn toml_escaped(s: Seq<char>) -> Seq<char>
    decreases s.len(),
{
    if s.len() == 0 {
        seq![]
    } else {
        let rest = toml_escaped(s.drop_last());
        if s.last() == '\\' || s.last() == '"' {
            rest.push('\\').push(s.last())
        } else {
            rest.push(s.last())
        }
    }
}

/// `s` as a TOML basic string.
pub open spec fn toml_quoted(s: Seq<char>) -> Seq<char> {
    seq!['"'] + toml_escaped(s) + seq!['"']
}

/// Render `s` as a TOML basic string (quoted, with `\` and `"` escaped) so paths
/// with spaces survive cargo's `--config` parsing.
pub fn toml_str(s: &str) -> (r: String)
    ensures
        r@ == toml_quoted(s@),
{
    let cs = chars_of(s);
    let n: usize = cs.len();
    let mut out = String::new();
    out.push('"');
    assert(out@ == seq!['"'] + toml_escaped(cs@.take(0)));
    for i in 0..n
        invariant
            n == cs@.len(),
            out@ == seq!['"'] + toml_escaped(cs@.take(i as int)),
    {
        let c: char = cs[i];
        proof {
            let next = cs@.take(i as int + 1);
            assert(next.drop_last() == cs@.take(i as int));
            assert(next.last() == c);
        }
        if c == '\\' || c == '"' {
            out.push('\\');
        }
        out.push(c);
    }
    assert(cs@.take(n as int) == s@);
    out.push('"');
    out
}

/// What stands between the quotes of a TOML basic string read from the front:
/// the text and what follows the closing quote. `None` where the string does not
/// end, holds a control character, or has an escape other than `\\` and `\"`.
pub open spec fn toml_read(s: Seq<char>) -> Option<(Seq<char>, Seq<char>)>
    decreases s.len(),
{
    if s.len() == 0 {
        None
    } else if s[0] == '"' {
        Some((seq![], s.skip(1)))
    } else if s[0] == '\\' {
        if s.len() >= 2 && (s[1] == '\\' || s[1] == '"') {
            match toml_read(s.skip(2)) {
                Some((text, rest)) => Some((seq![s[1]] + text, rest)),
                None => None,
            }
        } else {
            None
        }
    } else if is_control(s[0]) {
        None
    } else {
        match toml_read(s.skip(1)) {
            Some((text, rest)) => Some((seq![s[0]] + text, rest)),
            None => None,
        }
    }
}

/// The control characters that a TOML basic string cannot hold as they are.
pub open spec fn is_control(c: char) -> bool {
    c <= '\u{8}' || '\u{a}' <= c <= '\u{1f}' || c == '\u{7f}'
}

proof fn lemma_toml_escaped_front(s: Seq<char>)
    requires
        s.len() > 0,
    ensures
        toml_escaped(s) == (if s[0] == '\\' || s[0] == '"' {
            seq!['\\', s[0]]
        } else {
            seq![s[0]]
        }) + toml_escaped(s.skip(1)),
    decreases s.len(),
{
    if s.len() == 1 {
        assert(s.drop_last() == Seq::<char>::empty());
        assert(s.skip(1) == Seq::<char>::empty());
    } else {
        lemma_toml_escaped_front(s.drop_last());
        assert(s.drop_last().skip(1) == s.skip(1).drop_last());
        assert(s.skip(1).last() == s.last());
        assert(s.drop_last()[0] == s[0]);
    }
}

/// A path written as a TOML string reads back as that path, and ends where it
/// was made to end, whatever follows. Paths with control characters, which a
/// TOML basic string cannot hold, are left out.
pub proof fn law_toml_string_reads_back(s: Seq<char>, rest: Seq<char>)
    requires
        forall|i: int| 0 <= i < s.len() ==> !is_control(#[trigger] s[i]),
    ensures
        toml_read((toml_quoted(s) + rest).skip(1)) == Some((s, rest)),
    decreases s.len(),
{
    let body = (toml_quoted(s) + rest).skip(1);
    assert(body == toml_escaped(s) + seq!['"'] + rest);
    if s.len() == 0 {
        assert(body.skip(1) == rest);
        assert(s == Seq::<char>::empty());
    } else {
        lemma_toml_escaped_front(s);
        let t = s.skip(1);
        law_toml_string_reads_back(t, rest);
        let next = (toml_quoted(t) + rest).skip(1);
        assert(next == toml_escaped(t) + seq!['"'] + rest);
        let k: int = if s[0] == '\\' || s[0] == '"' {
            2
        } else {
            1
        };
        assert(body.skip(k) == next);
        assert(!is_control(s[0]));
        assert(seq![s[0]] + t == s);
        assert(toml_read(next) == Some((t, rest)));
    }
}

// ── the host target ───────────────────────────────────────────────────────────

/// The rest of the first line that begins with `host: `, trimmed.
pub open spec fn host_line(all: Seq<Seq<char>>) -> Option<Seq<char>>
    decreases all.len(),
{
    if all.len() == 0 {
        None
    } else if starts_with(all[0], "host: "@) {
        Some(trimmed(all[0].skip(6)))
    } else {
        host_line(all.skip(1))
    }
}

/// The host target triple in the output of `rustc -vV`.
pub fn parse_host_triple(rustc_vv: &str) -> (r: Option<String>)
    ensures
        opt_string(r) == host_line(lines(rustc_vv@)),
{
    let all = lines_of(rustc_vv);
    let n: usize = all.len();
    let ghost views = texts(all@);
    assert(views.skip(0) == views);
    for i in 0..n
        invariant
            n == all@.len(),
            views == texts(all@),
            views == lines(rustc_vv@),
            host_line(views.skip(i as int)) == host_line(views),
    {
        let line = all[i].as_str();
        assert(views.skip(i as int)[0] == line@);
        if has_prefix(line, "host: ") {
            proof {
                reveal_strlit("host: ");
                assert(line@.subrange(6, line@.len() as int) == line@.skip(6));
            }
            let rest = line.substring_char(6, line.unicode_len());
            return Some(trim(rest).to_owned());
        }
        assert(views.skip(i as int).skip(1) == views.skip(i as int + 1));
    }
    None
}

/// The host target triple, or why it is not known.
pub open spec fn detected_host(run: Result<ProcessOutput, String>) -> Result<Seq<char>, Seq<char>> {
    match run {
        Err(e) => Err(
            "Failed to run rustc to detect the host target: "@ + e@
                + ".\n  Is a Rust toolchain installed?"@,
        ),
        Ok(output) => if output.code != Some(0i32) {
            Err("`rustc -vV` failed; cannot detect the host target triple."@)
        } else {
            match host_line(lines(utf8_lossy(output.stdout@))) {
                Some(triple) => Ok(triple),
                None => Err("Could not find the host target in `rustc -vV` output."@),
            }
        },
    }
}

/// The text on either side of a result.
pub open spec fn result_text(r: Result<String, String>) -> Result<Seq<char>, Seq<char>> {
    match r {
        Ok(s) => Ok(s@),
        Err(e) => Err(e@),
    }
}

/// The host target triple, from a run of `rustc -vV` or the reason for which it
/// could not be started. Needed both for the forced `--target` and for the
/// `target.<triple>.runner` config key.
pub fn host_triple(run: Result<ProcessOutput, String>) -> (r: Result<String, String>)
    ensures
        result_text(r) == detected_host(run),
{
    match run {
        Err(e) => {
            let mut msg = "Failed to run rustc to detect the host target: ".to_owned();
            msg.append(e.as_str());
            msg.append(".\n  Is a Rust toolchain installed?");
            Err(msg)
        },
        Ok(output) => {
            if !succeeded(output.code) {
                return Err("`rustc -vV` failed; cannot detect the host target triple.".to_owned());
            }
            let text = text_from_bytes(output.stdout.as_slice());
            match parse_host_triple(text.as_str()) {
                Some(triple) => Ok(triple),
                None => Err("Could not find the host target in `rustc -vV` output.".to_owned()),
            }
        },
    }
}

// ── the target runner ─────────────────────────────────────────────────────────

/// Whether the wrapper asked to filter to the default proof targets, as the value
/// of [`USE_DEFAULT_TARGETS_ENV`] says, or the message for a value that says
/// nothing.
pub open spec fn default_targets_wanted(var: Option<Seq<char>>) -> Result<bool, Seq<char>> {
    match var {
        Some(v) => if v == "1"@ {
            Ok(true)
        } else if v == "0"@ {
            Ok(false)
        } else {
            Err(
                USE_DEFAULT_TARGETS_ENV@ + " should be `0` or `1`, but is `"@ + v
                    + "`. Are you using `cargo soteria nextest`?"@,
            )
        },
        None => Err(
            USE_DEFAULT_TARGETS_ENV@ + " is not set. Are you using `cargo soteria nextest`?"@,
        ),
    }
}

/// Whether the wrapper asked to filter to the default proof targets.
pub fn use_default_targets(var: Option<&str>) -> (r: Result<bool, String>)
    ensures
        match default_targets_wanted(opt_text(var)) {
            Ok(wanted) => r == Ok::<bool, String>(wanted),
            Err(message) => r matches Err(e) && e@ == message,
        },
{
    match var {
        Some(v) => {
            if same_text(v, "1") {
                return Ok(true);
            }
            if same_text(v, "0") {
                return Ok(false);
            }
            let mut msg = USE_DEFAULT_TARGETS_ENV.to_owned();
            msg.append(" should be `0` or `1`, but is `");
            msg.append(v);
            msg.append("`. Are you using `cargo soteria nextest`?");
            Err(msg)
        },
        None => {
            let mut msg = USE_DEFAULT_TARGETS_ENV.to_owned();
            msg.append(" is not set. Are you using `cargo soteria nextest`?");
            Err(msg)
        },
    }
}

/// What the target runner has to do.
pub enum RunnerAction {
    /// Exit successfully without listing or running anything.
    Skip,
    /// Fail with a message.
    Fail(String),
    /// Discover the tests with these soteria-rust arguments and print them.
    List(Vec<String>),
    /// Run soteria-rust with these arguments and exit with its code.
    Exec(Vec<String>),
}

/// What a runner action holds.
#[verifier::ext_equal]
pub enum RunnerModel {
    Skip,
    Fail(Seq<char>),
    List(Seq<Seq<char>>),
    Exec(Seq<Seq<char>>),
}

impl View for RunnerAction {
    type V = RunnerModel;

    open spec fn view(&self) -> RunnerModel {
        match self {
            RunnerAction::Skip => RunnerModel::Skip,
            RunnerAction::Fail(message) => RunnerModel::Fail(message@),
            RunnerAction::List(args) => RunnerModel::List(texts(args@)),
            RunnerAction::Exec(args) => RunnerModel::Exec(texts(args@)),
        }
    }
}

/// The soteria-rust flags that select a target: none for the library.
pub open spec fn profile_args(profile: Option<Seq<char>>) -> Seq<Seq<char>> {
    match profile {
        Some(name) => seq!["--test"@, name],
        None => seq![],
    }
}

/// The first argument that is no flag.
pub open spec fn first_operand(args: Seq<Seq<char>>) -> Option<Seq<char>>
    decreases args.len(),
{
    if args.len() == 0 {
        None
    } else if !starts_with(args[0], "-"@) {
        Some(args[0])
    } else {
        first_operand(args.skip(1))
    }
}

/// The arguments of the list phase.
pub open spec fn list_args(profile: Option<Seq<char>>, extra: Seq<Seq<char>>) -> Seq<Seq<char>> {
    discovery_args(None, profile_args(profile) + extra)
}

/// The arguments that run one test.
pub open spec fn exec_args(
    profile: Option<Seq<char>>,
    extra: Seq<Seq<char>>,
    name: Seq<char>,
) -> Seq<Seq<char>> {
    seq!["exec"@, "."@, "--no-compile"@, "--no-compile-plugins"@] + profile_args(profile) + extra
        + seq!["--filter"@, anchored(name)]
}

/// The protocol arguments of the runner: all but the path of the test binary.
pub open spec fn protocol_args(args: Seq<Seq<char>>) -> Seq<Seq<char>> {
    if args.len() == 0 {
        args
    } else {
        args.skip(1)
    }
}

/// What the target runner has to do: skip a binary that is not selected, fail for
/// a target that cannot be analysed, list the tests where `--list` is among the
/// protocol arguments (none of them is ever ignored), and otherwise run the test
/// that is named there.
pub open spec fn runner_action(
    args: Seq<Seq<char>>,
    binary: BinaryModel,
    selected: bool,
    extra: Seq<Seq<char>>,
) -> RunnerModel {
    let proto = protocol_args(args);
    if !selected {
        RunnerModel::Skip
    } else {
        match profile_of(binary) {
            Err(message) => RunnerModel::Fail(message),
            Ok(profile) => if proto.contains("--list"@) {
                if proto.contains("--ignored"@) {
                    RunnerModel::Skip
                } else {
                    RunnerModel::List(list_args(profile, extra))
                }
            } else {
                match first_operand(proto) {
                    None => RunnerModel::Fail("No test name passed to the soteria nextest runner."@),
                    Some(name) => RunnerModel::Exec(exec_args(profile, extra, name)),
                }
            },
        }
    }
}

/// Append the flags that select a target.
fn append_profile(out: &mut Vec<String>, profile: Option<&str>)
    ensures
        texts(final(out)@) == texts(old(out)@) + profile_args(opt_text(profile)),
{
    if let Some(name) = profile {
        out.push("--test".to_owned());
        out.push(name.to_owned());
    }
    assert(texts(out@) == texts(old(out)@) + profile_args(opt_text(profile)));
}

/// List phase: the soteria-rust arguments that discover the tests of a target,
/// or `None` where the ignored ones are asked for: soteria has no notion of
/// `#[ignore]`. The compile uses the same soteria flags as the per-test runs
/// (such as `--kani`), so the listed entry points match what the run phase
/// analyses.
pub fn list_phase(proto: &[String], test_target: Option<&str>, extra: &[String]) -> (r: Option<
    Vec<String>,
>)
    ensures
        opt_texts(r) == (if texts(proto@).contains("--ignored"@) {
            None
        } else {
            Some(list_args(opt_text(test_target), texts(extra@)))
        }),
{
    if has_text(proto, "--ignored") {
        return None;
    }
    let mut flags: Vec<String> = Vec::new();
    append_profile(&mut flags, test_target);
    append_all(&mut flags, extra);
    assert(texts(flags@) == profile_args(opt_text(test_target)) + texts(extra@));
    Some(discover_args(None, flags.as_slice()))
}

/// Run phase: the soteria-rust arguments that execute the single named test, or
/// the message where no test is named.
pub fn run_phase(proto: &[String], test_target: Option<&str>, extra: &[String]) -> (r: Result<
    Vec<String>,
    String,
>)
    ensures
        match first_operand(texts(proto@)) {
            Some(name) => r matches Ok(args) && texts(args@) == exec_args(
                opt_text(test_target),
                texts(extra@),
                name,
            ),
            None => r matches Err(e) && e@ == "No test name passed to the soteria nextest runner."@,
        },
{
    let n: usize = proto.len();
    let ghost views = texts(proto@);
    assert(views.skip(0) == views);
    let mut i: usize = 0;
    while i < n
        invariant
            n == proto@.len(),
            i <= n,
            views == texts(proto@),
            first_operand(views.skip(i as int)) == first_operand(views),
        decreases n - i,
    {
        assert(views.skip(i as int)[0] == proto@[i as int]@);
        if !has_prefix(proto[i].as_str(), "-") {
            let mut args: Vec<String> = Vec::new();
            args.push("exec".to_owned());
            args.push(".".to_owned());
            args.push("--no-compile".to_owned());
            args.push("--no-compile-plugins".to_owned());
            assert(texts(args@) == seq!["exec"@, "."@, "--no-compile"@, "--no-compile-plugins"@]);
            append_profile(&mut args, test_target);
            append_all(&mut args, extra);
            let ghost before = args@;
            let filter = anchored_filter(proto[i].as_str());
            args.push("--filter".to_owned());
            args.push(filter);
            assert(texts(args@) == texts(before) + seq!["--filter"@, filter@]);
            return Ok(args);
        }
        assert(views.skip(i as int).skip(1) == views.skip(i as int + 1));
        i = i + 1;
    }
    Err("No test name passed to the soteria nextest runner.".to_owned())
}

/// What the hidden mode `<exe> __nextest-runner <test-bin> <args…>` has to do.
/// `args` is everything after the flag. The native test binary is ignored; what
/// matters is the cargo target it stands for. `selected` says whether the binary
/// is to be looked at at all, `extra` are the flags from the wrapper.
pub fn runner(args: &[String], binary: &ProbedBinary, selected: bool, extra: &[String]) -> (r:
    RunnerAction)
    ensures
        r@ == runner_action(texts(args@), binary@, selected, texts(extra@)),
{
    if !selected {
        return RunnerAction::Skip;
    }
    let n: usize = args.len();
    let from: usize = if n == 0 {
        0
    } else {
        1
    };
    let proto = copy_range(args, from, n);
    assert(texts(proto@) == protocol_args(texts(args@)));
    match binary.test_target() {
        Err(message) => RunnerAction::Fail(message),
        Ok(profile) => {
            if has_text(proto.as_slice(), "--list") {
                match list_phase(proto.as_slice(), profile, extra) {
                    Some(l) => RunnerAction::List(l),
                    None => RunnerAction::Skip,
                }
            } else {
                match run_phase(proto.as_slice(), profile, extra) {
                    Ok(e) => RunnerAction::Exec(e),
                    Err(message) => RunnerAction::Fail(message),
                }
            }
        },
    }
}

/// The list phase and the run phase of one target look at the same thing: they
/// carry the same target selection and the same extra flags.
pub proof fn law_phases_agree(
    list: Seq<Seq<char>>,
    exec: Seq<Seq<char>>,
    binary: BinaryModel,
    extra: Seq<Seq<char>>,
)
    requires
        protocol_args(list).contains("--list"@),
        !protocol_args(list).contains("--ignored"@),
        !protocol_args(exec).contains("--list"@),
        profile_of(binary) is Ok,
        first_operand(protocol_args(exec)) is Some,
    ensures
        runner_action(list, binary, true, extra) matches RunnerModel::List(l) && runner_action(
            exec,
            binary,
            true,
            extra,
        ) matches RunnerModel::Exec(e) && l.skip(3) == e.subrange(4, e.len() - 2),
{
    let profile = profile_of(binary)->Ok_0;
    let name = first_operand(protocol_args(exec))->0;
    let flags = profile_args(profile) + extra;
    assert(list_args(profile, extra).skip(3) == flags);
    let e = exec_args(profile, extra, name);
    assert(e.subrange(4, e.len() - 2) == flags);
}

/// The lines that list some tests.
pub open spec fn listing(tests: Seq<Seq<char>>) -> Seq<char>
    decreases tests.len(),
{
    if tests.len() == 0 {
        seq![]
    } else {
        listing(tests.drop_last()) + tests.last() + ": test\n"@
    }
}

/// What the list phase prints: one `name: test` line per discovered entry point,
/// and nothing else.
pub fn test_listing(tests: &[String]) -> (r: String)
    ensures
        r@ == listing(texts(tests@)),
{
    let mut out = String::new();
    let n: usize = tests.len();
    let ghost views = texts(tests@);
    for i in 0..n
        invariant
            n == tests@.len(),
            views == texts(tests@),
            out@ == listing(views.take(i as int)),
    {
        out.append(tests[i].as_str());
        out.append(": test\n");
        proof {
            let next = views.take(i as int + 1);
            assert(next.drop_last() == views.take(i as int));
            assert(next.last() == tests@[i as int]@);
        }
    }
    assert(views.take(n as int) == views);
    out
}

proof fn lemma_listing_front(tests: Seq<Seq<char>>)
    requires
        tests.len() > 0,
    ensures
        listing(tests) == tests[0] + ": test\n"@ + listing(tests.skip(1)),
    decreases tests.len(),
{
    if tests.len() == 1 {
        assert(tests.drop_last() == Seq::<Seq<char>>::empty());
        assert(tests.skip(1) == Seq::<Seq<char>>::empty());
    } else {
        lemma_listing_front(tests.drop_last());
        assert(tests.drop_last().skip(1) == tests.skip(1).drop_last());
        assert(tests.skip(1).last() == tests.last());
        assert(tests.drop_last()[0] == tests[0]);
    }
}

/// The lines of the listing are the test names, in order, each with `: test`
/// behind it. A test name has no line break in it.
pub proof fn law_one_line_per_test(tests: Seq<Seq<char>>)
    requires
        forall|i: int| 0 <= i < tests.len() ==> !(#[trigger] tests[i]).contains('\n'),
    ensures
        lines(listing(tests)) == tests.map_values(|t: Seq<char>| t + ": test"@),
    decreases tests.len(),
{
    let shown = tests.map_values(|t: Seq<char>| t + ": test"@);
    if tests.len() == 0 {
        assert(lines(listing(tests)) == Seq::<Seq<char>>::empty());
    } else {
        reveal_strlit(": test\n");
        reveal_strlit(": test");
        lemma_listing_front(tests);
        let rest = tests.skip(1);
        assert forall|i: int| 0 <= i < rest.len() implies !(#[trigger] rest[i]).contains('\n') by {
            assert(rest[i] == tests[i + 1]);
        }
        law_one_line_per_test(rest);
        let s = listing(tests);
        let line = tests[0] + ": test"@;
        let k = line.len() as int;
        assert(s == line + seq!['\n'] + listing(rest));
        assert forall|j: int| 0 <= j < k implies s[j] != '\n' by {
            if j < tests[0].len() {
                assert(tests[0].contains(tests[0][j]));
            }
        }
        lemma_position_unique(s, '\n', k);
        assert(s.take(k) == line);
        assert(s.skip(k + 1) == listing(rest));
        assert(line.last() == 't');
        assert(shown == seq![line] + rest.map_values(|t: Seq<char>| t + ": test"@));
    }
}

/// The exit code to pass on for a process: its own, or 1 where a signal ended it.
pub fn exit_code(code: Option<i32>) -> (r: i32)
    ensures
        r == (match code {
            Some(c) => c,
            None => 1i32,
        }),
        r == passed_on(code),
{
    match code {
        Some(c) => c,
        None => 1,
    }
}

// ── the wrapper ───────────────────────────────────────────────────────────────

/// An argument or a value for the process that the wrapper starts: some text, or
/// the path of the file to which the cargo metadata was written.
pub enum Arg {
    Text(String),
    MetadataFile,
}

/// What an argument holds.
pub enum ArgModel {
    Text(Seq<char>),
    MetadataFile,
}

impl View for Arg {
    type V = ArgModel;

    open spec fn view(&self) -> ArgModel {
        match self {
            Arg::Text(s) => ArgModel::Text(s@),
            Arg::MetadataFile => ArgModel::MetadataFile,
        }
    }
}

/// A run of `cargo` with the arguments and the environment variables to set for
/// it. The cargo metadata is fetched for it only where it is needed.
pub struct CargoRun {
    pub args: Vec<Arg>,
    pub env: Vec<(String, Arg)>,
    pub needs_metadata: bool,
}

pub open spec fn arg_models(args: Seq<Arg>) -> Seq<ArgModel> {
    args.map_values(|a: Arg| a@)
}

pub open spec fn env_models(env: Seq<(String, Arg)>) -> Seq<(Seq<char>, ArgModel)> {
    env.map_values(|p: (String, Arg)| (p.0@, p.1@))
}

pub open spec fn text_args(args: Seq<Seq<char>>) -> Seq<ArgModel> {
    args.map_values(|a: Seq<char>| ArgModel::Text(a))
}

/// The cargo configuration that injects `exe` as the runner of a target. The
/// runner is an array of program and arguments, so that nextest invokes
/// `<exe> __nextest-runner <bin> <args…>`.
pub open spec fn runner_config(triple: Seq<char>, exe: Seq<char>) -> Seq<char> {
    "target."@ + triple + ".runner=["@ + toml_quoted(exe) + ", "@ + toml_quoted(RUNNER_FLAG@) + "]"@
}

/// The arguments for `cargo`: those for nextest, the shared metadata where the
/// default targets are used, the host triple as an explicit target (a target
/// runner fires only for one), and the runner.
pub open spec fn cargo_args(args: Seq<Seq<char>>, triple: Seq<char>, exe: Seq<char>) -> Seq<
    ArgModel,
> {
    let forwarded = before_dashes(args);
    text_args(seq!["nextest"@] + forwarded) + (if targets_selected(forwarded) {
        seq![]
    } else {
        seq![ArgModel::Text("--cargo-metadata"@), ArgModel::MetadataFile]
    }) + text_args(seq!["--target"@, triple, "--config"@, runner_config(triple, exe)])
}

/// The environment for `cargo`: whether the default targets are used, the shared
/// metadata where they are, and the soteria-rust flags where there are any.
pub open spec fn cargo_env(args: Seq<Seq<char>>) -> Seq<(Seq<char>, ArgModel)> {
    let extra = after_dashes(args);
    (if targets_selected(before_dashes(args)) {
        seq![(USE_DEFAULT_TARGETS_ENV@, ArgModel::Text("0"@))]
    } else {
        seq![
            (USE_DEFAULT_TARGETS_ENV@, ArgModel::Text("1"@)),
            (CARGO_METADATA_ENV@, ArgModel::MetadataFile),
        ]
    }) + (if extra.len() == 0 {
        seq![]
    } else {
        seq![(EXTRA_ARGS_ENV@, ArgModel::Text(json_encoded(extra)))]
    })
}

/// The text that an environment gives a variable.
pub open spec fn env_text(env: Seq<(Seq<char>, ArgModel)>, var: Seq<char>) -> Option<Seq<char>>
    decreases env.len(),
{
    if env.len() == 0 {
        None
    } else if env.last().0 == var {
        match env.last().1 {
            ArgModel::Text(s) => Some(s),
            ArgModel::MetadataFile => None,
        }
    } else {
        env_text(env.drop_last(), var)
    }
}

fn push_text(args: &mut Vec<Arg>, text: &str)
    ensures
        arg_models(final(args)@) == arg_models(old(args)@).push(ArgModel::Text(text@)),
{
    args.push(Arg::Text(text.to_owned()));
    assert(arg_models(args@) == arg_models(old(args)@).push(ArgModel::Text(text@)));
}

/// The run of `cargo nextest` that drives the crate's symbolic tests, with this
/// program wired in as the cargo target runner. `args` (such as `run`, plus any
/// filters and flags) are forwarded to nextest up to the first `--`; what follows
/// it reaches every soteria-rust call, through an environment variable. `triple`
/// is the host target, `exe` the path of this program.
///
/// Where the user named no targets, nextest builds its default set and the runner
/// picks the proof targets per binary.
pub fn run(args: &[String], triple: &str, exe: &str) -> (r: CargoRun)
    ensures
        arg_models(r.args@) == cargo_args(texts(args@), triple@, exe@),
        env_models(r.env@) == cargo_env(texts(args@)),
        r.needs_metadata == !targets_selected(before_dashes(texts(args@))),
        carried_args(env_text(env_models(r.env@), EXTRA_ARGS_ENV@)) == after_dashes(texts(args@)),
{
    let (nextest_args, soteria_args) = split_soteria_args(args);
    let use_default_targets = !selects_targets(nextest_args.as_slice());
    let mut config = "target.".to_owned();
    config.append(triple);
    config.append(".runner=[");
    config.append(toml_str(exe).as_str());
    config.append(", ");
    config.append(toml_str(RUNNER_FLAG).as_str());
    config.append("]");

    let mut out: Vec<Arg> = Vec::new();
    let ghost forwarded = texts(nextest_args@);
    push_text(&mut out, "nextest");
    let n: usize = nextest_args.len();
    assert(arg_models(out@) == text_args(seq!["nextest"@] + forwarded.take(0)));
    for i in 0..n
        invariant
            n == nextest_args@.len(),
            forwarded == texts(nextest_args@),
            arg_models(out@) == text_args(seq!["nextest"@] + forwarded.take(i as int)),
    {
        push_text(&mut out, nextest_args[i].as_str());
        assert(forwarded.take(i as int + 1) == forwarded.take(i as int).push(
            nextest_args@[i as int]@,
        ));
        assert(arg_models(out@) == text_args(seq!["nextest"@] + forwarded.take(i as int + 1)));
    }
    assert(forwarded.take(n as int) == forwarded);
    let mut env: Vec<(String, Arg)> = Vec::new();
    if use_default_targets {
        let ghost before = out@;
        push_text(&mut out, "--cargo-metadata");
        let ghost flagged = out@;
        out.push(Arg::MetadataFile);
        assert(arg_models(out@) == arg_models(flagged).push(ArgModel::MetadataFile));
        assert(arg_models(out@) == arg_models(before) + seq![
            ArgModel::Text("--cargo-metadata"@),
            ArgModel::MetadataFile,
        ]);
        env.push((USE_DEFAULT_TARGETS_ENV.to_owned(), Arg::Text("1".to_owned())));
        env.push((CARGO_METADATA_ENV.to_owned(), Arg::MetadataFile));
    } else {
        env.push((USE_DEFAULT_TARGETS_ENV.to_owned(), Arg::Text("0".to_owned())));
    }
    let ghost middle = out@;
    push_text(&mut out, "--target");
    push_text(&mut out, triple);
    push_text(&mut out, "--config");
    push_text(&mut out, config.as_str());
    assert(arg_models(out@) == arg_models(middle) + text_args(
        seq!["--target"@, triple@, "--config"@, config@],
    ));
    if soteria_args.len() > 0 {
        let encoded = encode_extra_args(soteria_args.as_slice());
        let ghost before = env@;
        env.push((EXTRA_ARGS_ENV.to_owned(), Arg::Text(encoded)));
        assert(env_models(env@) == env_models(before).push(
            (EXTRA_ARGS_ENV@, ArgModel::Text(encoded@)),
        ));
    }
    proof {
        let models = env_models(env@);
        assert(texts(soteria_args@).len() == soteria_args@.len());
        assert(models == cargo_env(texts(args@)));
        reveal_with_fuel(env_text, 3);
        reveal_strlit("__SOTERIA_NEXTEST_EXTRA_ARGS");
        reveal_strlit("SOTERIA_USE_DEFAULT_TARGETS");
        reveal_strlit("SOTERIA_CARGO_METADATA");
        assert(EXTRA_ARGS_ENV@[0] != USE_DEFAULT_TARGETS_ENV@[0]);
        assert(EXTRA_ARGS_ENV@[0] != CARGO_METADATA_ENV@[0]);
        if soteria_args@.len() == 0 {
            assert(after_dashes(texts(args@)) == Seq::<Seq<char>>::empty());
            assert(models.drop_last().len() <= 1);
        }
    }
    CargoRun { args: out, env, needs_metadata: use_default_targets }
}

/// Where nextest is to build its default set of targets, the runner is told to
/// filter, and it is told so exactly then.
pub proof fn law_runner_filters_default_targets(args: Seq<Seq<char>>)
    ensures
        default_targets_wanted(env_text(cargo_env(args), USE_DEFAULT_TARGETS_ENV@)) == Ok::<
            bool,
            Seq<char>,
        >(!targets_selected(before_dashes(args))),
{
    reveal_strlit("__SOTERIA_NEXTEST_EXTRA_ARGS");
    reveal_strlit("SOTERIA_USE_DEFAULT_TARGETS");
    reveal_strlit("SOTERIA_CARGO_METADATA");
    reveal_strlit("0");
    reveal_strlit("1");
    assert(EXTRA_ARGS_ENV@[0] != USE_DEFAULT_TARGETS_ENV@[0]);
    assert(CARGO_METADATA_ENV@[8] != USE_DEFAULT_TARGETS_ENV@[8]);
    assert("0"@[0] != "1"@[0]);
    reveal_with_fuel(env_text, 4);
    let env = cargo_env(args);
    let base = if targets_selected(before_dashes(args)) {
        seq![(USE_DEFAULT_TARGETS_ENV@, ArgModel::Text("0"@))]
    } else {
        seq![
            (USE_DEFAULT_TARGETS_ENV@, ArgModel::Text("1"@)),
            (CARGO_METADATA_ENV@, ArgModel::MetadataFile),
        ]
    };
    if after_dashes(args).len() > 0 {
        assert(env.drop_last() == base);
    } else {
        assert(env == base);
    }
    if !targets_selected(before_dashes(args)) {
        assert(base.drop_last() == seq![(USE_DEFAULT_TARGETS_ENV@, ArgModel::Text("1"@))]);
    }
}

/// The message for a failed fetch of the cargo metadata.
pub open spec fn metadata_failed(status: Seq<char>, stderr: Seq<char>) -> Seq<char> {
    "`cargo metadata` failed ("@ + status + ").\n"@ + trimmed(stderr)
}

/// The message for a failed fetch of the cargo metadata has the status in it, and ends
/// with what was on standard error.
pub proof fn law_metadata_failure(status: Seq<char>, stderr: Seq<char>)
    ensures
        ends_with(metadata_failed(status, stderr), "\n"@ + trimmed(stderr)),
        starts_with(metadata_failed(status, stderr), "`cargo metadata` failed ("@ + status + ")"@),
{
    reveal_strlit("\n");
    reveal_strlit(")");
    reveal_strlit(").\n");
    let m = metadata_failed(status, stderr);
    let end = "\n"@ + trimmed(stderr);
    assert(m.skip(m.len() - end.len()) =~= end);
    let head = "`cargo metadata` failed ("@ + status + ")"@;
    assert(m.take(head.len() as int) =~= head);
}

/// The message for a fetch of the cargo metadata that ended with this status and
/// this on standard error.
pub fn metadata_failure(status: &str, stderr: &str) -> (r: String)
    ensures
        r@ == "`cargo metadata` failed ("@ + status@ + ").\n"@ + trimmed(stderr@),
        r@ == metadata_failed(status@, stderr@),
{
    let mut msg = "`cargo metadata` failed (".to_owned();
    msg.append(status);
    msg.append(").\n");
    msg.append(trim(stderr));
    msg
}

/// The message for a failed fetch of the cargo metadata.
pub fn metadata_failure_message(status: &str, stderr: &[u8]) -> (r: String)
    ensures
        r@ == "`cargo metadata` failed ("@ + status@ + ").\n"@ + trimmed(utf8_lossy(stderr@)),
        r@ == metadata_failed(status@, utf8_lossy(stderr@)),
{
    let text = text_from_bytes(stderr);
    metadata_failure(status, text.as_str())
}

// ── what reaches soteria-rust ─────────────────────────────────────────────────

/// The user's flags reach soteria-rust in both phases and for every target that can be
/// analysed, unbroken and in order: the arguments of the list phase end in them, and
/// those of the run phase have them directly in front of the filter, which is for the
/// test that nextest named.
pub proof fn law_flags_reach_both_phases(
    list: Seq<Seq<char>>,
    exec: Seq<Seq<char>>,
    binary: BinaryModel,
    extra: Seq<Seq<char>>,
    name: Seq<char>,
)
    requires
        protocol_args(list).contains("--list"@),
        !protocol_args(list).contains("--ignored"@),
        !protocol_args(exec).contains("--list"@),
        !(binary.target is Other),
        first_operand(protocol_args(exec)) == Some(name),
    ensures
        runner_action(list, binary, true, extra) matches RunnerModel::List(l) && l.len()
            >= extra.len() && l.skip(l.len() - extra.len()) == extra,
        runner_action(exec, binary, true, extra) matches RunnerModel::Exec(e) && e.len()
            >= extra.len() + 2 && e[e.len() - 2] == "--filter"@ && e[e.len() - 1] == anchored(name)
            && e.subrange(e.len() - 2 - extra.len(), e.len() - 2) == extra,
{
    let profile = profile_of(binary)->Ok_0;
    let l = list_args(profile, extra);
    let e = exec_args(profile, extra, name);
    assert(l.skip(l.len() - extra.len()) == extra);
    assert(e.subrange(e.len() - 2 - extra.len(), e.len() - 2) == extra);
}

/// In front of the flags stands what lists or runs the tests of the current directory
/// without compiling anew, and, for an integration test alone, its selection.
pub proof fn law_commands_of_the_phases(
    list: Seq<Seq<char>>,
    exec: Seq<Seq<char>>,
    package: Seq<char>,
    target: Seq<char>,
    extra: Seq<Seq<char>>,
    name: Seq<char>,
)
    requires
        protocol_args(list).contains("--list"@),
        !protocol_args(list).contains("--ignored"@),
        !protocol_args(exec).contains("--list"@),
        first_operand(protocol_args(exec)) == Some(name),
    ensures
        ({
            let lib = BinaryModel { package, target: TargetModel::Lib };
            let test = BinaryModel { package, target: TargetModel::IntegrationTest(target) };
            let filter = seq!["--filter"@, anchored(name)];
            &&& runner_action(list, lib, true, extra) == RunnerModel::List(
                seq!["compile"@, "--list-tests"@, "."@] + extra,
            )
            &&& runner_action(list, test, true, extra) == RunnerModel::List(
                seq!["compile"@, "--list-tests"@, "."@, "--test"@, target] + extra,
            )
            &&& runner_action(exec, lib, true, extra) == RunnerModel::Exec(
                seq!["exec"@, "."@, "--no-compile"@, "--no-compile-plugins"@] + extra + filter,
            )
            &&& runner_action(exec, test, true, extra) == RunnerModel::Exec(
                seq!["exec"@, "."@, "--no-compile"@, "--no-compile-plugins"@, "--test"@, target]
                    + extra + filter,
            )
        }),
{
    let filter = seq!["--filter"@, anchored(name)];
    let base = seq!["exec"@, "."@, "--no-compile"@, "--no-compile-plugins"@];
    assert(list_args(None, extra) == seq!["compile"@, "--list-tests"@, "."@] + extra);
    assert(list_args(Some(target), extra) == seq![
        "compile"@,
        "--list-tests"@,
        "."@,
        "--test"@,
        target,
    ] + extra);
    assert(exec_args(None, extra, name) == base + extra + filter);
    assert(exec_args(Some(target), extra, name) == seq![
        "exec"@,
        "."@,
        "--no-compile"@,
        "--no-compile-plugins"@,
        "--test"@,
        target,
    ] + extra + filter);
}

/// The runner does nothing exactly where the binary is not selected, or where the
/// ignored tests of a target that can be analysed are to be listed.
pub proof fn law_runner_skips(
    args: Seq<Seq<char>>,
    binary: BinaryModel,
    selected: bool,
    extra: Seq<Seq<char>>,
)
    ensures
        runner_action(args, binary, selected, extra) is Skip <==> !selected || (!(
        binary.target is Other) && protocol_args(args).contains("--list"@) && protocol_args(
            args,
        ).contains("--ignored"@)),
        selected && binary.target is Other ==> runner_action(args, binary, selected, extra) is Fail,
{
}

/// The path of the test binary is no protocol argument, and everything behind it is.
pub proof fn law_protocol_args(bin: Seq<char>, proto: Seq<Seq<char>>)
    ensures
        protocol_args(seq![bin] + proto) == proto,
        protocol_args(seq![]) == Seq::<Seq<char>>::empty(),
{
    assert((seq![bin] + proto).skip(1) == proto);
}

/// The test to run is the first protocol argument that does not begin with a dash.
pub proof fn law_first_operand(args: Seq<Seq<char>>)
    ensures
        first_operand(args) matches Some(name) ==> exists|i: int|
            0 <= i < args.len() && #[trigger] args[i] == name && !dashed(name) && forall|j: int|
                0 <= j < i ==> dashed(#[trigger] args[j]),
        first_operand(args) is None ==> forall|j: int|
            0 <= j < args.len() ==> dashed(#[trigger] args[j]),
    decreases args.len(),
{
    reveal_strlit("-");
    assert forall|a: Seq<char>| dashed(a) == #[trigger] starts_with(a, "-"@) by {
        if a.len() > 0 {
            assert(a.take(1)[0] == a[0]);
            if a[0] == '-' {
                assert(a.take(1) == "-"@);
            }
        }
    }
    if args.len() > 0 {
        assert(dashed(args[0]) == starts_with(args[0], "-"@));
        if dashed(args[0]) {
            let rest = args.skip(1);
            law_first_operand(rest);
            assert forall|j: int| 1 <= j < args.len() implies #[trigger] args[j] == rest[j - 1] by {}
            if first_operand(args) is Some {
                let name = first_operand(args)->0;
                let i = choose|i: int|
                    0 <= i < rest.len() && #[trigger] rest[i] == name && !dashed(name) && forall|
                        j: int,
                    |
                        0 <= j < i ==> dashed(#[trigger] rest[j]);
                assert(args[i + 1] == name);
                assert forall|j: int| 0 <= j < i + 1 implies dashed(#[trigger] args[j]) by {
                    if j > 0 {
                        assert(dashed(rest[j - 1]));
                    }
                }
            }
        } else {
            assert(args[0] == first_operand(args)->0);
        }
    }
}

/// Whether an argument begins with a dash.
pub open spec fn dashed(a: Seq<char>) -> bool {
    a.len() > 0 && a[0] == '-'
}

// ── what reaches cargo ────────────────────────────────────────────────────────

/// The host is on the first line that begins with `host: `, whatever stands on the lines
/// around it; without such a line there is none.
pub proof fn law_host_line(front: Seq<Seq<char>>, host: Seq<char>, back: Seq<Seq<char>>)
    requires
        forall|k: int| 0 <= k < front.len() ==> !starts_with(#[trigger] front[k], "host: "@),
    ensures
        host_line(front) is None,
        host_line(front + seq!["host: "@ + host] + back) == Some(trimmed(host)),
    decreases front.len(),
{
    reveal_strlit("host: ");
    let line = "host: "@ + host;
    let all = front + seq![line] + back;
    if front.len() == 0 {
        assert(all[0] == line);
        assert(line.take(6) == "host: "@);
        assert(line.skip(6) == host);
    } else {
        let rest = front.skip(1);
        assert forall|k: int| 0 <= k < rest.len() implies !starts_with(
            #[trigger] rest[k],
            "host: "@,
        ) by {
            assert(rest[k] == front[k + 1]);
        }
        law_host_line(rest, host, back);
        assert(all.skip(1) == rest + seq![line] + back);
        assert(all[0] == front[0]);
    }
}

/// The host is known exactly where `rustc` ran, succeeded, and told it; it is then what
/// `rustc` told. The message for a run that could not be started holds the reason.
pub proof fn law_detected_host(output: ProcessOutput, reason: String)
    ensures
        detected_host(Ok(output)) is Ok <==> output.code == Some(0i32) && host_line(
            lines(utf8_lossy(output.stdout@)),
        ) is Some,
        detected_host(Ok(output)) matches Ok(triple) ==> host_line(
            lines(utf8_lossy(output.stdout@)),
        ) == Some(triple),
        detected_host(Err(reason)) matches Err(message) && exists|a: Seq<char>, b: Seq<char>|
            message == #[trigger] (a + reason@ + b),
{
}

/// The runner filters for `1`, does not for `0`, and takes no other value for an answer;
/// the message for another one holds that value.
pub proof fn law_default_targets_wanted(var: Option<Seq<char>>)
    ensures
        default_targets_wanted(var) == Ok::<bool, Seq<char>>(true) <==> var == Some(seq!['1']),
        default_targets_wanted(var) == Ok::<bool, Seq<char>>(false) <==> var == Some(seq!['0']),
        var is Some && default_targets_wanted(var) is Err ==> exists|a: Seq<char>, b: Seq<char>|
            default_targets_wanted(var)->Err_0 == #[trigger] (a + var->0 + b),
        default_targets_wanted(var) matches Err(message) ==> starts_with(
            message,
            USE_DEFAULT_TARGETS_ENV@,
        ),
{
    reveal_strlit("0");
    reveal_strlit("1");
    assert("0"@ == seq!['0']);
    assert("1"@ == seq!['1']);
    assert("0"@[0] != "1"@[0]);
    let name = USE_DEFAULT_TARGETS_ENV@;
    if let Err(message) = default_targets_wanted(var) {
        assert(message.take(name.len() as int) == name);
    }
}

/// The arguments that select targets, one by one: those of a kind of target, alone or
/// with a value behind `=`, those for all targets of a kind, and those for the library and
/// for all targets. There are no others.
pub proof fn law_target_flags(a: Seq<char>, value: Seq<char>)
    ensures
        is_target_flag(a) <==> seq![
            "--lib"@,
            "--bins"@,
            "--tests"@,
            "--benches"@,
            "--examples"@,
            "--all-targets"@,
        ].contains(a) || (exists|i: int|
            0 <= i < 4 && (a == #[trigger] target_kinds()[i] || begins(a, target_kinds()[i], '='))),
        forall|i: int|
            0 <= i < 4 ==> is_target_flag(#[trigger] target_kinds()[i]) && is_target_flag(
                target_kinds()[i] + seq!['='] + value,
            ),
{
    reveal_strlit("--bin");
    reveal_strlit("--test");
    reveal_strlit("--bench");
    reveal_strlit("--example");
    reveal_strlit("--bin=");
    reveal_strlit("--test=");
    reveal_strlit("--bench=");
    reveal_strlit("--example=");
    let kinds = target_kinds();
    assert(kinds[0] == "--bin"@ && kinds[1] == "--test"@ && kinds[2] == "--bench"@ && kinds[3]
        == "--example"@);
    assert("--bin="@ == "--bin"@ + seq!['=']);
    assert("--test="@ == "--test"@ + seq!['=']);
    assert("--bench="@ == "--bench"@ + seq!['=']);
    assert("--example="@ == "--example"@ + seq!['=']);
    lemma_begins(a, "--bin"@, '=');
    lemma_begins(a, "--test"@, '=');
    lemma_begins(a, "--bench"@, '=');
    lemma_begins(a, "--example"@, '=');
    let words = seq![
        "--lib"@,
        "--bins"@,
        "--tests"@,
        "--benches"@,
        "--examples"@,
        "--all-targets"@,
    ];
    assert(words[0] == "--lib"@ && words[1] == "--bins"@ && words[2] == "--tests"@ && words[3]
        == "--benches"@ && words[4] == "--examples"@ && words[5] == "--all-targets"@);
    if is_target_flag(a) && !words.contains(a) {
        assert(a == kinds[0] || a == kinds[1] || a == kinds[2] || a == kinds[3] || begins(
            a,
            kinds[0],
            '=',
        ) || begins(a, kinds[1], '=') || begins(a, kinds[2], '=') || begins(a, kinds[3], '='));
    }
    assert forall|i: int| 0 <= i < 4 implies is_target_flag(#[trigger] kinds[i])
        && is_target_flag(kinds[i] + seq!['='] + value) by {
        let flag = kinds[i] + seq!['='] + value;
        assert(flag.take(kinds[i].len() as int) == kinds[i]);
        lemma_begins(flag, kinds[i], '=');
    }
}

/// The arguments that select the targets of one kind by name.
pub open spec fn target_kinds() -> Seq<Seq<char>> {
    seq!["--bin"@, "--test"@, "--bench"@, "--example"@]
}

/// Whether a text begins with `front` and then has `c`.
pub open spec fn begins(a: Seq<char>, front: Seq<char>, c: char) -> bool {
    a.len() > front.len() && a.take(front.len() as int) == front && a[front.len() as int] == c
}

proof fn lemma_begins(a: Seq<char>, front: Seq<char>, c: char)
    ensures
        begins(a, front, c) <==> starts_with(a, front + seq![c]),
{
    let n = front.len() as int;
    let whole = front + seq![c];
    if a.len() > n {
        if begins(a, front, c) {
            assert(a.take(n + 1) == whole);
        }
        if starts_with(a, whole) {
            assert(a.take(n + 1)[n] == a[n]);
            assert(a.take(n) == a.take(n + 1).take(n));
            assert(whole.take(n) == front);
        }
    }
}

/// A selection counts wherever it stands among the arguments.
pub proof fn law_any_selection_counts(a: Seq<Seq<char>>, one: Seq<char>, b: Seq<Seq<char>>)
    ensures
        targets_selected(a + seq![one] + b) <==> targets_selected(a) || is_target_flag(one)
            || targets_selected(b),
        !targets_selected(seq![]),
{
    let all = a + seq![one] + b;
    assert(all[a.len() as int] == one);
    assert forall|i: int| 0 <= i < a.len() implies all[i] == #[trigger] a[i] by {}
    assert forall|i: int| 0 <= i < b.len() implies all[a.len() + 1 + i] == #[trigger] b[i] by {}
    if targets_selected(all) {
        let i = choose|i: int| 0 <= i < all.len() && is_target_flag(#[trigger] all[i]);
        if i < a.len() {
            assert(is_target_flag(a[i]));
        } else if i > a.len() {
            assert(is_target_flag(b[i - a.len() - 1]));
        }
    }
    if targets_selected(a) {
        let i = choose|i: int| 0 <= i < a.len() && is_target_flag(#[trigger] a[i]);
        assert(is_target_flag(all[i]));
    }
    if targets_selected(b) {
        let i = choose|i: int| 0 <= i < b.len() && is_target_flag(#[trigger] b[i]);
        assert(is_target_flag(all[a.len() + 1 + i]));
    }
}

/// `cargo` is told to run nextest with every argument of the user in front of `--`, in
/// order and unchanged. Behind them stand the shared metadata, exactly where the user
/// selected no targets, and then the host as the target and the runner.
pub proof fn law_cargo_args(
    args: Seq<Seq<char>>,
    triple: Seq<char>,
    exe: Seq<char>,
    i: int,
)
    ensures
        ({
            let r = cargo_args(args, triple, exe);
            let n = before_dashes(args).len() as int;
            let k = r.len() as int;
            &&& r[0] == ArgModel::Text("nextest"@)
            &&& 0 <= i < n ==> r[i + 1] == ArgModel::Text(before_dashes(args)[i])
            &&& k == n + (if targets_selected(before_dashes(args)) {
                5
            } else {
                7int
            })
            &&& !targets_selected(before_dashes(args)) ==> r[n + 1] == ArgModel::Text(
                "--cargo-metadata"@,
            ) && r[n + 2] == ArgModel::MetadataFile
            &&& r[k - 4] == ArgModel::Text("--target"@)
            &&& r[k - 3] == ArgModel::Text(triple)
            &&& r[k - 2] == ArgModel::Text("--config"@)
            &&& r[k - 1] == ArgModel::Text(runner_config(triple, exe))
        }),
{
}

/// The configuration sets the runner of the given target to an array of two strings: the
/// path of this program, and the verb for the runner. Paths with control characters, which
/// such a string cannot hold, are left out.
pub proof fn law_runner_config(triple: Seq<char>, exe: Seq<char>)
    requires
        forall|i: int| 0 <= i < exe.len() ==> !is_control(#[trigger] exe[i]),
    ensures
        ({
            let key = "target."@ + triple + ".runner=["@;
            let array = runner_config(triple, exe).skip(key.len() as int);
            &&& starts_with(runner_config(triple, exe), key)
            &&& array.len() > 0 && array[0] == '"'
            &&& toml_read(array.skip(1)) matches Some((first, rest)) && first == exe
                && rest.len() > 3 && rest.take(3) == ", \""@ && toml_read(rest.skip(3)) == Some(
                (RUNNER_FLAG@, seq![']']),
            )
        }),
{
    reveal_strlit(", ");
    reveal_strlit("]");
    reveal_strlit(", \"");
    reveal_strlit("__nextest-runner");
    let key = "target."@ + triple + ".runner=["@;
    let whole = runner_config(triple, exe);
    let flag = toml_quoted(RUNNER_FLAG@);
    let rest = ", "@ + flag + "]"@;
    let array = toml_quoted(exe) + rest;
    assert(whole == key + array);
    assert(whole.take(key.len() as int) == key);
    assert(whole.skip(key.len() as int) == array);
    law_toml_string_reads_back(exe, rest);
    assert forall|i: int| 0 <= i < RUNNER_FLAG@.len() implies !is_control(
        #[trigger] RUNNER_FLAG@[i],
    ) by {}
    law_toml_string_reads_back(RUNNER_FLAG@, "]"@);
    assert("]"@ == seq![']']);
    assert(rest.take(3) == ", \""@);
    assert(rest.skip(3) == (flag + "]"@).skip(1));
}

/// A text is escaped character by character: a backslash and a quote get a backslash in
/// front, and every other one stands for itself.
pub proof fn law_toml_escaped(a: Seq<char>, c: char, b: Seq<char>)
    ensures
        toml_escaped(a + b) == toml_escaped(a) + toml_escaped(b),
        toml_escaped(seq![c]) == if c == '\\' || c == '"' {
            seq!['\\', c]
        } else {
            seq![c]
        },
        toml_quoted(a)[0] == '"' && toml_quoted(a).last() == '"',
    decreases b.len(),
{
    let one = seq![c];
    assert(one.drop_last() == Seq::<char>::empty());
    assert(toml_escaped(one.drop_last()) == Seq::<char>::empty());
    if b.len() == 0 {
        assert(a + b == a);
    } else {
        law_toml_escaped(a, c, b.drop_last());
        assert((a + b).drop_last() == a + b.drop_last());
        assert((a + b).last() == b.last());
    }
    assert(toml_escaped(a + b) =~= toml_escaped(a) + toml_escaped(b));
    assert(toml_escaped(one) =~= if c == '\\' || c == '"' {
        seq!['\\', c]
    } else {
        seq![c]
    });
}

/// A control character is one that is not shown, but for the tab.
pub proof fn law_control_characters(c: char)
    ensures
        is_control(c) <==> (c < ' ' && c != '\t') || c == '\u{7f}',
{
}

/// The flags that reach the runner are those behind the first `--`, and the shared
/// metadata is in the environment exactly where the user selected no targets.
pub proof fn law_environment_of_the_runner(args: Seq<Seq<char>>)
    ensures
        ({
            let env = cargo_env(args);
            &&& after_dashes(args).len() > 0 ==> env_text(env, EXTRA_ARGS_ENV@) == Some(
                json_encoded(after_dashes(args)),
            )
            &&& after_dashes(args).len() == 0 ==> env_text(env, EXTRA_ARGS_ENV@) is None
            &&& env.contains((CARGO_METADATA_ENV@, ArgModel::MetadataFile)) <==> !targets_selected(
                before_dashes(args),
            )
        }),
{
    reveal_strlit("__SOTERIA_NEXTEST_EXTRA_ARGS");
    reveal_strlit("SOTERIA_USE_DEFAULT_TARGETS");
    reveal_strlit("SOTERIA_CARGO_METADATA");
    assert(EXTRA_ARGS_ENV@[0] != USE_DEFAULT_TARGETS_ENV@[0]);
    assert(EXTRA_ARGS_ENV@[0] != CARGO_METADATA_ENV@[0]);
    assert(CARGO_METADATA_ENV@[8] != USE_DEFAULT_TARGETS_ENV@[8]);
    reveal_with_fuel(env_text, 4);
    let env = cargo_env(args);
    let entry = (CARGO_METADATA_ENV@, ArgModel::MetadataFile);
    if !targets_selected(before_dashes(args)) {
        assert(env[1] == entry);
    } else {
        assert(env.len() <= 2);
        assert(env[0].0 != CARGO_METADATA_ENV@);
        if env.len() == 2 {
            assert(env[1].0 == EXTRA_ARGS_ENV@);
        }
        if env.contains(entry) {
            let i = choose|i: int| 0 <= i < env.len() && env[i] == entry;
            assert(i == 0 || i == 1);
        }
    }
    if after_dashes(args).len() > 0 {
        assert(env.last() == (EXTRA_ARGS_ENV@, ArgModel::Text(json_encoded(after_dashes(args)))));
    } else {
        assert(env.drop_last().len() <= 1);
    }
}

/// The exit code to pass on for a process.
pub open spec fn passed_on(code: Option<i32>) -> i32 {
    match code {
        Some(c) => c,
        None => 1i32,
    }
}

/// An exit code is passed on as it is, and a process that a signal ended never passes for
/// one that succeeded.
pub proof fn law_exit_code(code: Option<i32>, c: i32)
    ensures
        passed_on(Some(c)) == c,
        passed_on(code) == 0 <==> code == Some(0i32),
{
}

/// The flags that the variable carries are all the strings of its array, in order; there
/// are none where it is unset or holds anything else.
pub proof fn law_carried_args(text: Seq<char>)
    ensures
        carried_args(None).len() == 0,
        json_string_array(text) matches Some(args) ==> carried_args(Some(text)) == args,
        json_string_array(text) is None ==> carried_args(Some(text)).len() == 0,
{
}

/// Where a test is to be run and none is named, the runner fails and runs nothing; and
/// where one is named, that one is run, whatever else is asked of the runner.
pub proof fn law_named_test_is_run(
    args: Seq<Seq<char>>,
    binary: BinaryModel,
    extra: Seq<Seq<char>>,
)
    requires
        !(binary.target is Other),
        !protocol_args(args).contains("--list"@),
    ensures
        runner_action(args, binary, true, extra) is Fail <==> first_operand(protocol_args(args))
            is None,
        runner_action(args, binary, true, extra) is Exec <==> first_operand(protocol_args(args))
            is Some,
        runner_action(args, binary, true, extra) matches RunnerModel::Exec(e) ==> e.contains(
            anchored(first_operand(protocol_args(args))->0),
        ),
{
    if first_operand(protocol_args(args)) is Some {
        let name = first_operand(protocol_args(args))->0;
        let e = exec_args(profile_of(binary)->Ok_0, extra, name);
        assert(e[e.len() - 1] == anchored(name));
    }
}

} // verus!
