# capx

A command line client for Capacities.io, written as a Verus library with a thin program
around it.

- `src/` is the verified library: the markdown reader and writer for Capacities blocks, the
  property normalizer, the builders of every request sent to the service (create, update,
  task, daily note, context, delete), the summaries and formatted views of a space's objects,
  the command line's own decisions (property arguments, edits, exports), the error type, and
  when a request is sent again. Each public function states its result in `ensures`;
  `src/laws.rs`, `src/inline.rs` and `src/roundtrip.rs` hold the laws that span functions,
  such as reading markdown and writing it back.
- `app/` is the program: argument parsing, the HTTP client, reading the token, printing and
  files. It calls the library for every decision.
- `tests/` runs the library on concrete values.

Calls into other crates (chrono, uuid, regex) stand behind small trusted wrappers whose
contracts say what those crates do; each names the function it calls.
