# fluentui_icons

Fluent UI SVG icons for [`iced`](https://iced.rs) applications, with the logic of the icon macros
and of the icon server proved in Verus.

- `src/` is the library. Every function states in its contract what it returns; the `law_*` proof
  functions state what holds across functions.
- `app/` is the ordinary Rust around it: the server on standard input and output, the reading of
  the icon directory, and the macro expansions on token streams.
- `tests/` runs the library.

The proofs rest on the contracts of the functions marked `external_body` and of the two
`assume_specification` items, which say what `serde_json` and the standard library do.
