# rune_kit

The logic of the Rune tool plugins (filesystem, fetch, git, media, audio,
image, browser, email, Figma, game engine, MHB mConnect) and of their
plugin kit and sidecar protocol, written in Verus and proved against its
contracts.

## Layout

- `src/` is the verified library. Each module holds one plugin's rules
  (argument checks, command lines, path resolution, paging, HTML to
  Markdown, JSON pruning, session bookkeeping, ...) with contracts over
  mathematical models (`Seq`, `Map`, `Multiset` and spec functions), and the
  laws that relate its operations (`law_*` proof functions).
  `json.rs` models JSON documents; `mail.rs` reads parsed mail messages; `text.rs` and `lines.rs` hold the string
  helpers; `catalog.rs` holds the tool catalogues as JSON text.
- The few calls into std and outside crates that the logic makes (string
  lower-casing, glob matching, base64, MIME guessing, mail and mailbox
  parsing, the clock) sit behind
  small trusted wrappers, each with a doc comment saying what its contract
  claims.
- `app/` is the unverified shell: process, file and network I/O, the serde
  copies of the library's types, async relays, and the floating-point work
  (geometry, physics, image comparison), calling into the library for every
  decision.
- `tests/` runs the library on concrete values.
