# cog_patterns

A library of reusable code patterns (idioms such as `Result` propagation, async with
Tokio, the builder pattern) with a matcher that finds the patterns that apply to a piece
of code and ranks them against a task description.

Layout:

- `src/` — the verified library (Verus): signature extraction (`signature`), task hints
  and the non-floating-point parts of relevance scoring, including a stable descending
  rank order (`relevance`), the pattern data model (`patterns`), the built-in library
  (`builtin`), the ordered pattern map of `indexmap` (`pattern_map`) and the matcher
  (`matcher`), with the laws that relate their operations.
- `app/` — plain Rust around it: the thread-safe shared matcher (`Arc` +
  `parking_lot::RwLock`), the floating-point score and ranking, and serde copies of the
  task hints.
- `tests/` — tests of the library.
