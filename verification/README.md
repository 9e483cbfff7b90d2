# cargo-soteria

A cargo subcommand that installs the `soteria-rust` symbolic-execution toolchain
and runs a crate's symbolic tests with it, alone or under cargo-nextest.

- `src/` is the library `cargo_soteria`: the decisions that the programs take, with
  their contracts, verified with Verus.
- `app/` holds the programs around it, `cargo-soteria` and `soteria-cleanup`: the
  command line, the terminal, files, processes and the network.
- `tests/` holds the tests of the library.

## The library

| module | what it decides |
| --- | --- |
| `text`, `decimal`, `json`, `size` | strings, numbers, JSON values and sizes as they are read and shown |
| `common` | where things are installed |
| `version`, `release` | versions, which release to install, and which of its assets |
| `archive` | what to create on disk for a zip archive |
| `staging`, `install` | how a new installation is put together, and takes the place of the old one |
| `setup`, `setup_laws` | the `setup` subcommand, and what holds of every setup |
| `unsetup`, `cleanup` | how an installation is removed |
| `runner_common` | how the analyzer is started, and the tests that it lists |
| `nextest`, `targets` | the cargo-nextest wrapper and its target runner |
| `cli` | which of these a command line asks for |

What takes place in several turns (a setup, an installation, a removal) is a
function from a phase and an event to the next phase, what is to be shown, and
the one thing to do next. The program does that thing and reports back what came
of it. What the user is promised of it is stated over all sequences of events,
in the proof functions whose names begin with `law_`.

Some functions rest on contracts of outside code that are not proved here:
`String::push`, `String::from_utf8` and `String::from_utf8_lossy` in `text`,
`serde_json` in `json`, and the zip reader in `archive`.

## Environment

The analyzer runs with `SOTERIA_Z3_PATH`, `SOTERIA_OBOL_PATH`,
`SOTERIA_CHARON_PATH` and `SOTERIA_RUST_PLUGINS` set to the bundled tools and
plugins. Where one of them is set already, that value is kept.
