# emergent

A test runner for Rust: it watches a cargo project, runs the library's tests on
every change, and shows what each test printed.

- `src/` is the verified library. It reads the output of a libtest run line
  by line into the captures of the tests, separates cargo's compiler messages
  from the test output, decides what the application does with each message,
  and holds the view-model building blocks (change sets, lazily mapped
  sequences, append-only tables) and a generation aware cache. Its contracts
  are proved by Verus; what serde_json, cargo_metadata and `std::str` compute
  is taken from small trusted wrappers, which name the JSON value a line
  parses to and the cargo messages a byte stream holds without describing
  those parsers themselves.
- `app/` runs cargo, watches the sources, and prints the results in the
  terminal. It hands the library plain values.
- `tests/` runs the library on concrete inputs.
