# dsondt

The logic of DSonDT (DeepSeek on Desktop), a local DeepSeek client with an
editable long-term memory, as a Verus library, plus the Tauri program around it.

- `src/` — the library, verified by Verus:
  - `text` — character-level helpers (trim, lines, prefixes, replace, decimals);
  - `version` — version strings: parsing, segment-wise comparison and its laws;
  - `update` — the three-tier update check as a request-by-request state machine;
  - `records` — conversations, messages, memories, the clock, JSON export/import;
  - `memory` — bigram keyword retrieval and ranking, system prompt, web-mode capture;
  - `apikey` — the obfuscated key file, saving and showing the key;
  - `chat` — the message list, automatic titles, reading the event stream;
  - `web`, `web_script` — web-mode state, page scripts, navigation decisions.
- `app/` — the Tauri program: SQLite storage, HTTP calls, keyring, file I/O,
  window handling; it calls the library for every decision.
- `tests/` — tests of the library on concrete values.
