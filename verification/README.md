# leaf

The rules of leaf, a Discord bot and gallery for keeping a daily
photo/video archive, written as a Verus library whose behaviour is stated
in `requires` / `ensures` contracts and proved.

## Layout

- `src/` — the verified library.
  - `text.rs`: character-level helpers (trimming, case folding, decimal
    rendering and parsing, searching) with their specifications.
  - `domain.rs`, `policy.rs`, `series_ops.rs`: series, guild settings,
    creation and visibility policy, create/update validation.
  - `stats.rs`, `milestone.rs`, `wrapped.rs`: streaks, milestone days and the
    yearly recap.
  - `parser.rs`: day-number suggestions from message text.
  - `reminder.rs`, `clock.rs`: when a reminder is due; calendar facts come
    from chrono / chrono-tz through trusted wrappers.
  - `media.rs`, `mapping.rs`, `transfer.rs`, `importer.rs`: storage keys,
    upload limits, the transfer format and the archive-import planner.
  - `store.rs`, `source.rs`: database rows and their JSON columns, the
    repository errors, and reading a v2 archive (format detection, media
    grouping, day order).
  - `thumbnail.rs`: EXIF orientation and WebP thumbnails (image and
    kamadak-exif behind trusted wrappers).
  - `auth.rs`: HMAC-signed session tokens (base64url) and media URLs (hex
    signatures); sha2, hmac and base64 behind trusted wrappers.
  - `config.rs`, `setup.rs`: configuration validation and the first-run
    setup gate.
  - `dto.rs`, `api_error.rs`, `gallery.rs`, `admin.rs`: API payloads, error
    mapping, the gallery API's gates (session header, membership,
    visibility, day window, signed media), Discord REST answers
    (`discord.rs`) and admin-panel rules.
  - `bot.rs`: the decisions behind the bot's commands and reminder loop.
- `tests/` — tests run against the compiled library.
- `app/` — a small command-line program around the library: TOML
  configuration files, JSON transfer files, thumbnails of files on disk,
  setup codes, session tokens and recaps.

Every trusted item (a function marked `#[verifier::external_body]`, or a
`pub uninterp spec fn` naming an outside result) carries a doc comment
saying which outside function it calls and what is claimed of it.
