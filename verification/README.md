# griffon

The decision logic of the Griffon security toolbox for Linux (an antivirus scanner
plugin, a system cleaner plugin, a Docker helper plugin, the daemon that hosts plugins,
its command line client and its desktop front end), written in Verus and proved against
its contracts.

## Layout

- `src/`: the verified library.
  - `scanner/`: threat categories, scan options, the signature database, which files a
    scan visits, the scan of content and of the archives inside it, the quarantine, rule
    updates and the engine's life cycle.
  - `cleaner/`: the cleaner's messages, its cache and Docker modules, its reports and
    their summaries for the front end.
  - `daemon/`: plugin identifiers, settings and notifications, the plugin history, the
    register of plugins and the answers the daemon sends.
  - `gui/`, `cli.rs`, `installer.rs`, `containers.rs`: the front end, the command line
    client, plugin installation and the Docker helper.
  - `text.rs`, `paths.rs`, `sorting.rs`, `table.rs`, `wire.rs`: shared text, path,
    ordering and message helpers.
- `tests/`: tests of the library on concrete values.
- `app/`: the program around the library: command line handling, file system and
  process work, JSON and TOML, and the plugins' message handlers.

The laws of the library (round trips, orderings, what operations keep) are public proof
functions whose names begin with `law_`.

Outside crates are called from `src/` only through a few wrappers whose contracts are
trusted: SHA-256 (`sha2`), hexadecimal (`hex`), UUID parsing and formatting (`uuid`) and
reading zip archives (`zip`).
