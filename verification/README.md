# bounded_read

Bounded, custodied reading of request artifacts, verified with Verus.

A request package is a manifest and the artifacts that it declares. A session takes the package into
custody, hands the artifacts out page by page through one-use cursors, and admits tool results and
provider requests within fixed budgets and a deadline.

- `src/` is the library: the rules and what they compute, each with its contract. `src/laws.rs` states
  what holds over whole series of operations. What is taken on trust of SHA-256, base64, the JSON
  parser and the random number generator stands in a doc comment at each function that calls them.
- `tests/` runs the library, with those crates linked.
- `app/` is ordinary Rust around it: files, environment variables, the clock, the lock and the
  encoded forms.
