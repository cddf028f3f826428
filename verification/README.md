# jlink-rtt

A command-line tool that drives SEGGER J-Link GDB Server and J-Link Commander
to reset a target and capture its RTT log, with its decisions proved
correct in Verus.

## Layout

- `src/` — the verified library.
  - `text.rs`: characters and strings (trimming, lines, whitespace-separated
    fields, searching, string order).
  - `numbers.rs`: decimal and hexadecimal numerals; unsigned parsing.
  - `paths.rs`: the `std::path` operations the library uses.
  - `config.rs`: command-line arguments, the `.jlink-rtt.env` project file,
    the steps that settle a run's settings (working-directory check, finding
    and reading the project file), and the merge of command line, project
    file and defaults.
  - `devices.rs`: the J-Link device database: reading the export, ranking
    matches of a pattern, resolving a fuzzy device name, reading the J-Link
    version.
  - `preflight.rs`: choosing the tools, the USB probe check, port checks,
    probe serial numbers.
  - `orchestrator.rs`: GDB server and J-Link Commander command lines, the
    reset script, waiting for ports, each read of a capture and how it ends.
  - `session.rs`: the modes of a run, `--print-config`, the project file
    written by `--init`, and the hints and reports of each mode.
- `app/` — the program: argument parsing with clap, files, processes,
  sockets and signals with tokio, calling the library for every decision.
- `tests/` — tests of the library.

## Usage

```bash
jlink-rtt --init --device nrf52840
jlink-rtt --match "START HERE" --match-timeout 30
jlink-rtt --out rtt.log
jlink-rtt --stop
```
