# weblog

An engine for web server access logs (Apache/Nginx Common and Combined, IIS W3C and
custom block-defined formats): format definitions and their validation, line parsers,
the decisions of the import pipeline (line assembly, batches, checkpoints), the SQL of
filters, pages and statistics, export lines, reconstruction of log lines from stored
records, the order in which a directory walk lists paths, the decisions of the
application service (cases, profile resolution, running work, how an export ended), and
a deterministic synthetic log generator.

## Layout

- `src/` — the library, written in Verus. Every function carries a contract over
  mathematical models (sequences, maps, spec functions) and is verified. Calls into
  `regex`, `chrono`, `sha2` and a few `std` functions go through small trusted wrappers
  in `src/ext.rs` whose contracts state what those crates document.
- `tests/` — tests of the library on concrete values.
- `app/` — the command line program around the library: file and gzip reading, the
  DuckDB store, the import loop, exports, serde forms of profiles, the application
  service with its background import and export threads, and the portable
  application's data root and log file.

Verify with `verus` on `src/lib.rs`; the program in `app/` builds against the library as
an ordinary crate.
