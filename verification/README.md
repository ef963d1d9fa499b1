# elm-json

Finds out which versions of Elm packages exist, what they depend on, and which
of them a version solver should try first. The library decides; reading files
and downloading is left to the code around it.

- `src/semver`: versions, ranges and constraints.
- `src/package`: names, the retriever and its parts. `model.rs` says what each
  step of the retriever makes of what it knows, and `laws.rs` what follows from
  it over several calls.
- `src/solver`: what a solver works with, and the trait that it asks.
- `src/table.rs`, `src/text.rs`: maps and small texts.
- `app`: a retriever that reads files and downloads.
