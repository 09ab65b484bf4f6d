# r0-metal-doctor

A report-never-assume doctor for ZK proving on Apple Silicon: it names a
compute lane (Metal, CUDA, CPU) only when a captured proof log shows it, and
says `indeterminate` otherwise. It also reports the Midnight proving target
honestly as CPU-only.

## Layout

- `src/` — the verified library (Verus). Every decision the tool makes lives
  here with a contract: lane classification of log lines and the verdict
  (`lane`), exit codes, redaction of host paths and user names (`sanitize`),
  the version matrix (`versions`), the target registry and its badges
  (`target`), the environment checks (`envprobe`), the Midnight assessment
  (`midnight`), the proof-run report (`prove`), the one-line summary
  (`check`), the evidence-bundle texts (`bundle`) and the cross-probe notes
  (`report`). The laws the tool promises are public proof functions named
  `law_*`.
- `app/` — the command-line program: argument parsing, running `cargo`,
  `docker` and `--version` probes, TCP and HTTP probes, the Metal device
  probe, files, and JSON output through serializable copies of the report
  types.
- `tests/` — tests of the library on concrete values.
