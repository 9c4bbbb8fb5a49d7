# zhaomu

The core of 朝暮, a local-first planner for tasks, projects, study records,
daily notes and a two-level knowledge base, written in Verus.

`src/` is the verified library: every rule the planner applies to a request
(titles, statuses, priorities, limits, defaults), the file names and paths it
derives from user input, the backup policy, the merge of search results, what
is read from Yuque's JSON replies, and the order of operations that replaces a
file safely. Each public function states its result in `ensures`; the proof
functions state the properties that hold across calls.

Where a result depends on the platform's path rules, the contract says what
holds everywhere and leaves the rest open: `check_note_image` fixes the
format for every name without `\` or `:` that does not start with `//`
(names every platform splits at `/` alone) and only bounds the extension
found in other names, and `notes_root_target` refuses every text that starts
with neither `/` nor `\` and holds no `:`, leaving other texts to
`Path::is_absolute`.

Whether a document path leads out of its directory through a symbolic link
is decided by `check_resolved_path` on the components that `app/` reads from
the file system with the links followed.

- `text`: Unicode whitespace, trimming, substring search and splitting.
- `names`: safe file-name components and knowledge-file locations.
- `numbers`: reading and writing unsigned decimal settings.
- `errors`: the refusals and their messages.
- `tasks`, `knowledge`, `documents`: request checks and the records they
  produce; document and daily-note paths that stay inside the notes directory.
- `backup`: retention, automatic-backup schedule, preferences.
- `search`: search terms and the merge of note matches.
- `yuque`: Yuque settings, API addresses and reply reading.
- `storage`: data layout, schema upgrades, safe file replacement.

`app/` performs the I/O around the library: SQLite through `rusqlite`, the file
system, and HTTP through `reqwest`. Each backup goes to a directory named by
the local time (`YYYY-MM-DD-HHmmss`), and a snapshot of the database is kept
before each schema upgrade. The desktop shell resolves the data
directory, bundles the schema scripts, and exposes the `Planner` methods as
commands.
