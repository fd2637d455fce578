# novacirrus

The core of a desktop file manager for S3, R2, S3-compatible storage, SFTP and
FTP/FTPS, written in Verus. The functions in `src/` carry contracts that Verus
proves, except for a few small wrappers around outside calls (marked
`#[verifier::external_body]`: a UUID, the clock, the `LIST` line parser, and
a handful of std string and path functions), whose contracts are trusted.

## Layout

- `src/` — the verified library.
  - `taxonomy` — levels, error categories, phases and status codes, and how
    HTTP statuses, S3 error codes, FTP replies and SFTP messages are
    classified.
  - `error` — the error IR (`AppError`) and the projection of every failure
    onto it.
  - `connections` — saved connections and the cache of their secrets.
  - `s3` — bucket/key paths, client settings, SDK failure classification,
    listing and search pages, multipart part sizes, transfer progress.
  - `ftp`, `sftp` — connection plans, failure classification, `LIST` output,
    trust-on-first-use host keys against known_hosts.
  - `remote` — backend families and capabilities, remote path joining,
    directory listings, the bounded recursive search, `mkdir -p` plans.
  - `order` — the stable folders-first, case-insensitive sort of listings.
  - `session` — the pool of live sessions.
  - `logging` — structured log lines for the Debug Log panel.
  - `secret_store` — what each keychain reply means.
  - `localfs` — the local file pane.
  - `commands` — the lookup and path display shared by the UI commands.
  - `text` — the string operations the rest is built from, with their
    specifications.
- `tests/` — tests of the library, run against the compiled crate.
- `app/` — the unverified shell: the Tauri window and commands, the network
  clients, the keychain and the local disk. It performs the I/O the library
  decides on.

## Checking

Laws that span several operations are stated as public proof functions next
to the code they speak of (for example `connections::save_then_get_law`,
`session::connect_then_connected_law`, `sftp::tofu_law`,
`s3::part_size_law`, `remote::search_limit_law`).
