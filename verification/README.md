# pna_cli

The argument handling and archive-metadata rules of the `pna` command-line
archiver, written in Verus: the library's functions in `src/` carry contracts
that Verus proves, except the few wrappers around outside crates and the
process (marked `external_body`), whose contracts are trusted, and
`is_running_as_root`, whose result is the process's user id.

## Layout

- `src/chunk.rs`, `src/chunk/`: access-control entries as stored in archive
  chunks (text form, platform forms, flag and permission tables).
- `src/cli.rs`, `src/cli/`: global options, the algorithm options, bsdtar's
  old-style arguments (`old_style.rs`) and the value parsers of the command
  line (`value/`: dates, compression levels, hashing parameters, `--options`,
  chunk types, ...).
- `src/command.rs`, `src/command/`: the `acl`, `chmod` and `chown` argument
  grammars and rules, the rows of a chunk listing (`chunk.rs`), and `shared/`, what several commands use: path
  rewriting, bsdtar `-s` and GNU `--transform` rules (`re/`), time filters,
  timestamp and permission strategies, reordering of parallel results,
  per-path write ordering, file arguments, the walk's and mtree's
  decisions, split-part sizes.
- `src/text.rs`, `src/time.rs`: character sequences and instants.
- `tests/`: tests of the library, run against the compiled crate.
- `app/`: ordinary Rust around the library: clap types, logging, password
  and path-list reading, and the locks that order parallel writes.

Calls into `regex`, `chrono`, `jiff`, `parse_datetime`, `typed-path` and
`nix` stand behind trusted wrappers whose contracts say what the library
relies on.
