# cargo_diagnose

A dependency health checker for Cargo projects: it lists a project's direct
dependencies, asks OSV.dev for advisories, crates.io for the newest version and
repository, and GitHub for the repository's state, and grades each dependency.

- `src/` is the verified library (Verus): the dependency scan
  (`metadata`), the per-crate report and its scoring rules (`report`,
  `assess`), the retry policy and the GitHub URL parsing (`api`), and the
  string helpers they use (`text`). Laws about the library are public proof
  functions named `law_*`.
- `app/` is the command-line program: argument handling, `cargo metadata`,
  HTTP requests, JSON, and printing.
- `tests/` holds the tests.
