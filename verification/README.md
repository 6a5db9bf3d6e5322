# shotlite

A small local screenshot utility: full-screen and rectangle capture, PNG
output to a configured directory, clipboard copies, a preview window, a
minimal editor, a Windows tray app, and destructive pixel redaction.

The crate is a Verus project. `src/` is the verified library: rectangle
parsing, pixel edits (redact, highlight, crop), capture geometry and file
names, history ordering and selection, the settings file's text, the paths
of derived files, the launch commands for opening and revealing files, and
the decisions of the preview, editor, selection overlay and tray. The
public functions state their results in `requires`/`ensures`, and
cross-function properties are public proof functions (`lemma_*`). Where a
result rests on the platform or the environment (how a path is split into
directory and stem beyond plain `/`-separated names, which directories the
user has, how TOML formats a table), the contract says what holds in every
case it can (for example, that a derived file's name ends its path) and
names or leaves open the rest; the remaining gaps are Windows-specific
path forms such as verbatim `\\?\` paths and backslash separators in the
history order.

`app/` is the program around it: command-line parsing with clap, file and
window I/O, monitor capture, the clipboard, and the Win32 message loops.
It hands the library plain values and performs what the library decides.

Monitor capture in `app/capture_io.rs` uses the `xcap` crate, which is not
among this crate's dependencies: it could not be brought in with the rest,
so `app/` builds only once `xcap` is added to `Cargo.toml`.

Run `tests/` for the behaviour on concrete values.
