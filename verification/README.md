# switchyard_core

The core of Switchyard, a menu-bar switcher for Codex accounts, written in Verus.

It keeps the account registry (`<codex home>/accounts/registry.json`), the per-account
credential snapshots (`<codex home>/accounts/<key>.auth.json`) and the active credentials
(`<codex home>/auth.json`) consistent, builds the panel that lists the accounts, and
switches the active account.

Paths are handled as text and follow Unix path rules, with `/` as the separator, as on
macOS where the app runs.

Layout:

- `src/` — the verified library. `paths` (file layout, snapshot names, temporary files),
  `auth` (reading `auth.json` and its JWT claims), `panel` (account summaries, ordering),
  `switch` (the settings switches and the account switch as a step function), `model`
  (registry types), `json` (JSON values), `base64url`, `text`.
- `app/` — plain Rust around it: files, JSON parsing and printing, the clock, the
  environment and the file watcher.
- `tests/` — tests of the library.
