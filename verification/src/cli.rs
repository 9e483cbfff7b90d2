//! The command line: which subsystem a command goes to, and with which arguments.

use vstd::prelude::*;

use crate::nextest::RUNNER_FLAG;
use crate::text::{copy_range, has_text, same_text, texts};

verus! {

/// What a command line asks for.
#[derive(Debug, PartialEq, Eq)]
pub enum Command {
    /// The hidden target runner of cargo-nextest, with its arguments.
    NextestRunner(Vec<String>),
    /// `nextest`, with its arguments.
    Nextest(Vec<String>),
    /// The help.
    Help,
    /// `setup`, with its arguments.
    Setup(Vec<String>),
    /// `unsetup`.
    Unsetup,
    /// The default action, with all arguments.
    Run(Vec<String>),
}

/// What a command line asks for, over text.
pub enum CommandModel {
    NextestRunner(Seq<Seq<char>>),
    Nextest(Seq<Seq<char>>),
    Help,
    Setup(Seq<Seq<char>>),
    Unsetup,
    Run(Seq<Seq<char>>),
}

impl View for Command {
    type V = CommandModel;

    open spec fn view(&self) -> CommandModel {
        match *self {
            Command::NextestRunner(args) => CommandModel::NextestRunner(texts(args@)),
            Command::Nextest(args) => CommandModel::Nextest(texts(args@)),
            Command::Help => CommandModel::Help,
            Command::Setup(args) => CommandModel::Setup(texts(args@)),
            Command::Unsetup => CommandModel::Unsetup,
            Command::Run(args) => CommandModel::Run(texts(args@)),
        }
    }
}

/// The arguments proper: without the program, and without the word `soteria` that
/// cargo inserts when the program is invoked as `cargo soteria`.
pub open spec fn own_args(argv: Seq<Seq<char>>) -> Seq<Seq<char>> {
    if argv.len() > 1 && argv[1] == "soteria"@ {
        argv.skip(2)
    } else {
        argv.skip(1)
    }
}

/// Whether the help is asked for, in any place.
pub open spec fn wants_help(args: Seq<Seq<char>>) -> bool {
    args.contains("-h"@) || args.contains("--help"@)
}

/// What some arguments ask for. cargo-nextest and its target runner render their
/// own help; everywhere else a request for help goes before anything else.
pub open spec fn dispatched(args: Seq<Seq<char>>) -> CommandModel {
    if args.len() > 0 && args[0] == RUNNER_FLAG@ {
        CommandModel::NextestRunner(args.skip(1))
    } else if args.len() > 0 && args[0] == "nextest"@ {
        CommandModel::Nextest(args.skip(1))
    } else if wants_help(args) {
        CommandModel::Help
    } else if args.len() > 0 && args[0] == "setup"@ {
        CommandModel::Setup(args.skip(1))
    } else if args.len() > 0 && args[0] == "unsetup"@ {
        CommandModel::Unsetup
    } else {
        CommandModel::Run(args)
    }
}

/// Find out what a command line asks for. `argv` begins with the program.
pub fn dispatch(argv: &[String]) -> (r: Command)
    requires
        argv@.len() > 0,
    ensures
        r@ == dispatched(own_args(texts(argv@))),
{
    let ghost all = texts(argv@);
    let n: usize = argv.len();
    let first: usize = if n > 1 && same_text(argv[1].as_str(), "soteria") {
        2
    } else {
        1
    };
    let args = copy_range(argv, first, n);
    let ghost own = own_args(all);
    assert(texts(args@) == own);
    if args.len() == 0 {
        return Command::Run(args);
    }
    let verb = args[0].as_str();
    assert(verb@ == own[0]);
    let rest = copy_range(args.as_slice(), 1, args.len());
    assert(texts(rest@) == own.skip(1));
    if same_text(verb, RUNNER_FLAG) {
        return Command::NextestRunner(rest);
    }
    if same_text(verb, "nextest") {
        return Command::Nextest(rest);
    }
    if has_text(args.as_slice(), "-h") || has_text(args.as_slice(), "--help") {
        return Command::Help;
    }
    if same_text(verb, "setup") {
        return Command::Setup(rest);
    }
    if same_text(verb, "unsetup") {
        return Command::Unsetup;
    }
    Command::Run(args)
}

/// It makes no difference whether the program is invoked by its own name or as
/// `cargo soteria`.
pub proof fn law_cargo_subcommand(program: Seq<char>, args: Seq<Seq<char>>)
    requires
        args.len() > 0 ==> args[0] != "soteria"@,
    ensures
        own_args(seq![program] + args) == args,
        own_args(seq![program, "soteria"@] + args) == args,
{
    let direct = seq![program] + args;
    let cargo = seq![program, "soteria"@] + args;
    if args.len() > 0 {
        assert(direct[1] == args[0]);
    }
    assert(direct.skip(1) == args);
    assert(cargo[1] == "soteria"@);
    assert(cargo.skip(2) == args);
}

/// What goes to the analyzer by default is every argument, as it was given.
pub proof fn law_default_forwards_everything(args: Seq<Seq<char>>)
    requires
        dispatched(args) is Run,
    ensures
        dispatched(args) == CommandModel::Run(args),
{
}

/// The number of tests to analyse concurrently.
pub open spec fn jobs_for(requested: Option<usize>, cpus: usize) -> nat {
    let jobs = match requested {
        Some(n) => n as nat,
        None => (cpus / 4) as nat,
    };
    if jobs == 0 {
        1
    } else {
        jobs
    }
}

/// As many tests are analysed at a time as were asked for, whatever the machine; by
/// default there are four processors for each, and fewer than four are left over. There is
/// always at least one.
pub proof fn law_jobs(n: usize, requested: Option<usize>, cpus: usize)
    ensures
        n >= 1 ==> jobs_for(Some(n), cpus) == n,
        jobs_for(requested, cpus) >= 1,
        cpus >= 4 ==> 4 * jobs_for(None, cpus) <= cpus < 4 * jobs_for(None, cpus) + 4,
        jobs_for(requested, cpus) == 1 || requested is Some || cpus >= 8,
        jobs_for(Some(0), cpus) == 1,
{
}

/// The number of tests to analyse concurrently: what was asked for, but at least
/// one; by default one for every four processors.
pub fn effective_jobs(requested: Option<usize>, cpus: usize) -> (r: usize)
    ensures
        r == match requested {
            Some(jobs) => if jobs < 1 {
                1
            } else {
                jobs
            },
            None => if cpus / 4 < 1 {
                1
            } else {
                cpus / 4
            },
        },
        r == jobs_for(requested, cpus),
{
    let jobs: usize = match requested {
        Some(jobs) => jobs,
        None => cpus / 4,
    };
    if jobs < 1 {
        1
    } else {
        jobs
    }
}

/// `setup` and `unsetup` are recognised whatever follows them, nothing included, as
/// long as no help is asked for; what follows `setup` are its arguments.
pub proof fn law_management_verbs(rest: Seq<Seq<char>>)
    requires
        !rest.contains("-h"@),
        !rest.contains("--help"@),
    ensures
        dispatched(seq!["setup"@] + rest) == CommandModel::Setup(rest),
        dispatched(seq!["unsetup"@] + rest) == CommandModel::Unsetup,
{
    reveal_strlit("setup");
    reveal_strlit("unsetup");
    reveal_strlit("nextest");
    reveal_strlit("__nextest-runner");
    reveal_strlit("-h");
    reveal_strlit("--help");
    let verbs = seq!["setup"@, "unsetup"@];
    assert("setup"@[0] == 's' && "unsetup"@[0] == 'u' && "nextest"@[0] == 'n' && RUNNER_FLAG@[0]
        == '_' && "-h"@[0] == '-' && "--help"@[0] == '-');
    assert forall|i: int| 0 <= i < 2 implies !(#[trigger] (seq![verbs[i]] + rest)).contains("-h"@)
        && !(seq![verbs[i]] + rest).contains("--help"@) && (seq![verbs[i]] + rest).skip(1) == rest by {
        let args = seq![verbs[i]] + rest;
        assert forall|j: int| 0 <= j < args.len() implies args[j] != "-h"@ && args[j] != "--help"@ by {
            if j > 0 {
                assert(args[j] == rest[j - 1]);
                assert(rest.contains(rest[j - 1]));
            }
        }
    }
    let set_up = seq![verbs[0]] + rest;
    let take_down = seq![verbs[1]] + rest;
    assert(set_up == seq!["setup"@] + rest && set_up.skip(1) == rest);
    assert(take_down == seq!["unsetup"@] + rest);
}

/// nextest and its target runner get everything that follows them, a request for help
/// included.
pub proof fn law_nextest_verbs(rest: Seq<Seq<char>>)
    ensures
        dispatched(seq!["nextest"@] + rest) == CommandModel::Nextest(rest),
        dispatched(seq![RUNNER_FLAG@] + rest) == CommandModel::NextestRunner(rest),
{
    reveal_strlit("nextest");
    reveal_strlit("__nextest-runner");
    assert("nextest"@[0] == 'n' && RUNNER_FLAG@[0] == '_');
    assert((seq!["nextest"@] + rest).skip(1) == rest);
    assert((seq![RUNNER_FLAG@] + rest).skip(1) == rest);
}

/// The help is shown where it is asked for in any place, unless the arguments are for
/// nextest; and only there.
pub proof fn law_help_anywhere(args: Seq<Seq<char>>, i: int)
    requires
        0 <= i < args.len(),
        args[0] != "nextest"@,
        args[0] != RUNNER_FLAG@,
    ensures
        args[i] == "-h"@ || args[i] == "--help"@ ==> dispatched(args) is Help,
        dispatched(args) is Help ==> exists|j: int|
            0 <= j < args.len() && (#[trigger] args[j] == "-h"@ || args[j] == "--help"@),
{
    if args[i] == "-h"@ || args[i] == "--help"@ {
        assert(args.contains(args[i]));
    }
    if dispatched(args) is Help {
        if args.contains("-h"@) {
            let j = choose|j: int| 0 <= j < args.len() && args[j] == "-h"@;
            assert(args[j] == "-h"@);
        } else {
            let j = choose|j: int| 0 <= j < args.len() && args[j] == "--help"@;
            assert(args[j] == "--help"@);
        }
    }
}

/// The default action is taken exactly where no help is asked for and the first
/// argument, if there is one, is none of the verbs; it gets every argument.
pub proof fn law_default_action(args: Seq<Seq<char>>)
    ensures
        dispatched(args) is Run <==> {
            &&& args.len() > 0 ==> args[0] != "setup"@ && args[0] != "unsetup"@ && args[0]
                != "nextest"@ && args[0] != RUNNER_FLAG@
            &&& forall|j: int|
                0 <= j < args.len() ==> #[trigger] args[j] != "-h"@ && args[j] != "--help"@
        },
        dispatched(args) is Run ==> dispatched(args) == CommandModel::Run(args),
{
    if dispatched(args) is Run {
        assert forall|j: int| 0 <= j < args.len() implies #[trigger] args[j] != "-h"@ && args[j]
            != "--help"@ by {
            assert(args.contains(args[j]));
        }
    }
}

/// The word that cargo inserts is dropped once, and nothing else ever is: what follows it
/// is taken as it stands, even the same word again.
pub proof fn law_inserted_word_is_dropped_once(program: Seq<char>, args: Seq<Seq<char>>)
    ensures
        own_args(seq![program, "soteria"@] + args) == args,
        own_args(seq![program]).len() == 0,
        own_args(seq![program] + args) == args || (args.len() > 0 && args[0] == "soteria"@),
{
    let cargo = seq![program, "soteria"@] + args;
    assert(cargo[1] == "soteria"@);
    assert(cargo.skip(2) == args);
    let direct = seq![program] + args;
    assert(direct.skip(1) == args);
    if args.len() > 0 {
        assert(direct[1] == args[0]);
    }
}

} // verus!
