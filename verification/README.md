# sherlock_rs

Hunt down accounts by username across the sites of a manifest (`data.json`).

Each site in the manifest says how to tell "this username exists" from a single
HTTP request: by status code, by a "not found" message in the page, or by the
status of the un-redirected URL.

## Layout

- `src/` — the library, with contracts and proofs: planning the request
  for a site (`detect::plan_request`), judging the response (`detect::decide`),
  the manifest kept in name order (`manifest`), the steps of a query around the
  network (`engine::start_query`, `engine::finish_query`) and the order in which
  results are reported (`engine::sort_by_site_name`). Each public function
  states what it returns in its `ensures`; the `law_*` proof functions state
  properties that span several of them.
- `app/` — the command-line program: argument parsing, reading the manifest
  file with serde, the HTTP requests (reqwest, tokio) and printing.
- `tests/` — tests of the library.

The manifest file is read at run time (`--manifest`, by default
`resources/data.json`).
