# redox_core

A verified core for a small hobby kernel and its terminal, written in Verus.

- `src/slicing.rs`: `GetSlice`, bounded slicing of slices and strings with clamped bounds.
- `src/text.rs`: splitting, lines, trimming, decimal parsing, hexadecimal digits.
- `src/shell.rs`: the terminal's command table and its interpreter (variables, `if`/`else`/`fi`, dispatch).
- `src/commands.rs`: what the built-in commands compute from their arguments.
- `src/interrupts.rs`: interrupt dispatch, crash reports, serial set-up.
- `src/clock.rs`: durations and the timer tick.
- `src/console.rs`: the kernel's debug console and the idle decision.
- `src/boot.rs`: which folders of a directory listing get loaded at boot.
- `app/`: the terminal program and the glue a kernel uses to drive the library.
- `tests/`: tests on concrete values.


