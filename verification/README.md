# morrow

The Morrow runtime and SDK for native Minecraft server mods, with its
logic verified by Verus.

- `src/` is the verified library: runtime handles and their table, the
  lifecycle state machine, the error channel, the batch wire format and
  the dispatch plan with per-mod quarantine, the world snapshot format,
  the command and config registries, the cross-thread outbox, package
  layout rules (platform directories, native artifacts, dependencies),
  the SDK's player-list parsing, command slots and event kinds, the
  signature rules of the SDK's attribute macros, and what the `morrow`
  command-line tool generates.
- `app/` is the program around it: the `extern "C"` entry points the Java
  host calls, loading packages from disk (zip, temp files, `dlopen`), the
  host's function table, logging, and the `morrow` command.
- `tests/` runs the library on concrete values.

Every public function in `src/` carries a contract; laws that relate
several operations (round trips of the wire formats, what quarantine
keeps from a mod, handle freshness, lifecycle order) are public proof
functions next to the code they speak of.
