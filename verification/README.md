# slack-cli

A command-line client for the Slack Web API: sending, editing and scheduling
messages, reading history and unread messages, searching, drafts, reminders,
bookmarks, pins, reactions, uploads and downloads, and encrypted per-profile
token storage.

The decisions the commands make are a library verified with Verus; the program
around it performs the I/O.

## Layout

- `src/` — the verified library.
  - `json.rs`, `strings.rs`, `hexcodec.rs`, `width.rs`, `sanitize.rs`: JSON values,
    text, hex, terminal width and the stripping of terminal control sequences.
  - `crypto.rs`, `config.rs`: token encryption (AES-256-GCM under a PBKDF2 or
    key-file key, with the older CBC format still readable) and the profile store.
  - `client.rs`: API URLs, the retry decisions for one request and the paging state
    of a listing.
  - `output.rs`: the table, CSV, TSV, YAML and id-only renderings of a value.
  - `common.rs`, `time.rs`, `error.rs`: IDs, channel labels and lookup, calendar
    formatting, and the error type with its messages and exit codes.
  - `cli/`: one module per command, with its argument checks and the values it prints.
- `app/` — the executable: argument parsing, HTTP, files, the terminal (colours and
  pretty-printed JSON), and the loops that feed the library's state machines.
- `tests/` — tests of the library on concrete values.

## What is trusted

Calls into other crates (chrono, url, aes-gcm, cbc, pbkdf2, rand, serde_json, reqwest,
unicode-width, dirs) and the few std functions that vstd does not specify stand behind
small `#[verifier::external_body]` wrappers or `assume_specification` items whose
contracts are taken on trust; each says in its doc comment what it claims. Everything
else in `src/` is proved.
