# useless

`useless` is a Linux daemon that coordinates intermittent CPU, memory and
network load from one process, and backs off when people use the machine
(SSH or TTY sessions) or when the host is under pressure.

This crate holds its decision logic as a library verified with Verus:

- `src/config.rs` — presets, the configuration format, its parser and
  validation, and the default configuration text.
- `src/sensor.rs` — reading `who -u --ips`, `ps -eo args`,
  `/proc/meminfo`, `/proc/loadavg` and `/sys/class/net` files into session
  counts, memory figures and byte counters.
- `src/reread.rs` — the proof that the configuration text written for each
  preset reads back as that preset.
- `src/policy.rs` — the supervisor: pressure levels, duties, burst schedules
  and the interactive grace period.
- `src/daemon.rs`, `src/runtime.rs` — one round of the daemon loop, the
  shared runtime state, signals and pid files.
- `src/workers/` — the CPU, memory and network load generators' arithmetic,
  buffer handling, target choice and download budget.
- `src/install.rs`, `src/cli.rs` — service manager choice, service files,
  the `status` report, command-line arguments.
- `src/text.rs`, `src/clock.rs` — text helpers and the wall clock.

`app/` is the program around it: argument reading, files, processes,
signals, threads, sockets, and the floating-point load and memory
percentages.

The active terminals of `who` and the terminals that `sshd` serves are kept
in `TtySessions` and `TtySet`, small vectors whose type invariant is that no
terminal appears twice. They take the place of a map and a set keyed by
terminal name: with string keys, vstd's specifications of std's ordered map
and set let nothing be proved about which keys they hold, while a vector of
names keeps every lookup and insertion verified. Nothing depends on the
order in which terminals are kept.
