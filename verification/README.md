# agentmail

The logic of AgentMail, a desktop mail client with local sync, direct mail
actions and manual AI analysis, as a library whose behaviour is stated in
`requires` / `ensures` contracts and proved with Verus.

## Layout

- `src/` — the verified library.
  - `model`, `errors`, `codes` — the mail records, the error types, and the
    text codes under which enums are stored (with round-trip laws).
  - `text`, `decimal`, `html` — string helpers, decimal numbers, and the
    HTML-to-text reduction used for bodies and previews.
  - `mime`, `clock` — reading a raw message (through `mail-parser`) into a
    stored message; RFC 3339 time stamps, waits and deadlines, and fresh
    identifiers.
  - `protocol`, `live`, `mock_protocol` — the IMAP/SMTP decisions (UID
    queries and sets, mailbox checks, which commands an action becomes,
    folder listings, fetch order) and a mock server.
  - `folders`, `search`, `refresh` — folder roles from paths, the full-text
    index document, and how a fetched message is merged into the store
    without a second row.
  - `account`, `ai`, `secret` — account configuration checks, AI settings
    (masking, redaction, URL checks, error sanitising) and the secret store.
  - `actions`, `sync`, `sync_state`, `watch` — mail actions and their
    confirmation, sync runs, locks and backoff, sync states, and the state
    machine of a folder watcher.
- `tests/` — tests of the library.
- `app/` — the desktop shell around the library: the SQLite store, the live
  IMAP/SMTP adapter, the HTTP model provider, background sync and watchers,
  and the Tauri commands.
