# pdrive_core

The verified core of a Proton Drive desktop client for Linux: a background
service that answers the desktop front end over D-Bus, and the rules the
front end applies when it browses, opens and syncs files.

`src/` is written in Verus. Its functions carry contracts that Verus
proves, resting on a few trusted wrappers whose contracts are assumed: the
conversion of a character list to a `String`, the `dirs` lookups of the
user's directories, and `serde_json`'s parse of a document and writing of
a string literal (both named, not restated).

- `paths`, `path_cache`: remote paths (a child's path, a folder's parent,
  the name after the last `/`) and the record of which node each browsed
  path stands for, with the laws that tie browsing, going back and opening
  a file together.
- `size`, `daemon`, `gui`: how sizes are shown (an exact integer account of
  `{:.1}` applied to `bytes as f64 / unit`), the service's answers, the
  breadcrumb bar, the dark-mode flag, the verification token, item counts.
- `tray`: the tray icon's identity and menu.
- `auth`, `config`, `db`, `sync`: stored sessions and what keyring answers
  mean, the configuration and its file's location, sync records, and the
  events a file-system change becomes.
- `sdk`, `drive`, `json`: the drive service client the client is built
  against, the drive client over it, and what the sign-in flow reads of the
  service's answers.
- `text`, `dirs_env`: character helpers, and the user's directories and
  the client's local paths, held as the bytes the platform stores.

`app/` is the service program: keyring, configuration file, SQLite, file
watching, D-Bus and the drive session. It asks the library what to do at
each step (when the held session is used or the stored one resumed,
which listing to make and which listed items are kept, when a cached
listing is served, what the listing answer says, where a download goes,
what a refusal is answered) and does the I/O; it holds the listing cache
itself.
`tests/` runs the library.
