# nr

`nr` is a command-line companion for NixOS flakes: it builds, previews,
switches, rolls back, checks and publishes a system configuration, and shows a
compact live view of a running build.

## Layout

- `src/` is the library, written in Verus. Its functions carry contracts and
  are verified, except a handful of small trusted wrappers around single
  standard-library calls and `serde_json`'s parser and writer, each marked
  `#[verifier::external_body]` with its contract in its doc comment. What is
  verified: configuration precedence, the rebuild lifecycle as
  a state machine, the internal-JSON build event parser and build state, the
  derivation dependency graph and the route it draws to the active build, the
  `nix store diff-closures` and dry-activation parsers, Git status parsing,
  pins and generations, the publish and remote-setup decisions, report and log
  retention, the `--ui json` report and the `--ui jsonl` event lines (their
  JSON values, which `serde_json` then writes), and every command line the
  tool runs. The parsers that lowercase text also come in a form that takes
  the lowercased text from the caller, so their results can be checked on
  given input.
- `app/` is the program around the library: argument parsing, file and process
  I/O, threads, and the terminal. It gathers facts, hands them to the library
  and carries out what the library decides.
- `tests/` runs the library on concrete inputs.

Laws that span several calls (what a lifecycle step may do after a failure,
which configuration source wins, that loading more of the dependency graph
never loses a route, and others) are stated as public proof functions beside
the code they are about.
