# Vinyl

Vinyl is a visual novel engine core: an indentation-based script language, its parser and
validator, a compiler to a small instruction set, a deterministic story machine with saves and
rollback, Fluent localization, and the decisions of a desktop player. The library in `src/` is
written in Verus, and every function in it carries a contract that Verus proves.

Layout:

- `src/lexer.rs`, `src/syntax.rs`, `src/expression.rs`, `src/parser.rs`: the script language,
  from characters to statements; `src/parse_laws.rs` proves that reading past errors agrees
  with the strict reading on scripts without errors.
- `src/validate.rs`, `src/manifest.rs`, `src/asset.rs`, `src/project.rs`, `src/localize.rs`:
  checking a project, resolving assets, combining script files, hashing and locales.
- `src/compile.rs`, `src/ir.rs`, `src/vm.rs`, `src/save.rs`, `src/story.rs`: the compiler, the
  story machine, saves and the driver a player owns.
- `src/presentation.rs`, `src/timing.rs`, `src/scene_sync.rs`, `src/player.rs`: what a
  renderer shows, timed effects, and the player's screens and input.
- `src/cli.rs`: the command line's decisions and the headless smoke run.
- `app/`: the `vn` command line around the library (files, TOML, JSON, arguments).
- `tests/`: tests of the library.

Collections:

- The rollback history is a `Vec<RollbackCheckpoint>`. A struct-of-arrays store from
  `soa_rs` would need that crate's derives on `RollbackCheckpoint`, and derives of outside
  crates cannot stand on verified types, so the history keeps its order in a plain vector
  with the bound stated as an invariant of the machine.
- Maps keyed by text are `StrMap`, a vector of entries whose keys are unique (a type
  invariant). Where an order matters, it is stated: extracted messages come sorted by id, each
  id once, and rendering them as Fluent entries requires that order.

The desktop player itself (window, drawing, sound, screenshots) is not part of this build;
`vn run` checks the project and reports that, and `vn smoke` runs the story headlessly.
