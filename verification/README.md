# magenta_adapters

The provider and storage adapters of the Magenta chat client, written in Verus: the
OpenAI Responses protocol (requests, server-sent events, chat and agent stream
decoding, sign-in and credentials), the demo provider, and the local store's rules
(records and pages, turns, full-text search ranking, attachments, assistant traces,
and the TOML settings file). Every function in `src/` carries a contract that Verus
proves; calls into `base64`, `sha2`, `rand`, `url`, `toml_edit` and `image` stand
behind small trusted wrappers whose contracts say what those crates document.

Layout:

- `src/` — the verified library. `sse`, `demo`, `domain`, `text`, `codec`, `keyed`,
  `http`; `openai/` (wire values, chat, agent, the whole chat and agent response
  streams, models, requests, auth, callback, service); `storage/` (database errors,
  records, turns, search, attachments, settings, agent memory, traces).
- `app/` — ordinary Rust around the library: JSON on the wire, reading response
  bodies, the local OAuth callback server, files, SQLite queries, and reading and
  writing the settings file, whose text the library edits. It leaves every rule to
  the library and hands it plain values.
- `tests/` — tests of the library on concrete values.

Attachments are references: importing one reads the picked file to learn its type and
size and records its own path; the file is never copied.
