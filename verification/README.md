# oplhost

Hosts a PlayStation 2 game library for Open PS2 Loader over the network, from
a Linux desktop: it lays out the loader's folders on a target, shares them
over SMBv1 (or supervises a UDPBD server for a block device or image), lists
the catalog with the game ids read from the disc images, downloads covers, and
edits each game's `CFG/<GameID>.cfg` (information fields and compatibility
modes) read-modify-write.

## Layout

- `src/` — the library, verified with Verus: every rule has a contract over
  sequences and views, and the library's laws are proof functions
  (`law_*`): reading back a `.cfg` after `set`/`remove`/`apply_info`,
  round-tripping a `.cfg` text, compatibility bits kept across edits, release
  dates normalized idempotently, shell quoting read back by the shell, the
  cache summarizing like the catalog, and rollback scripts undoing their apply
  scripts.
- `tests/` — tests of the library.
- `app/` — the command-line program around it: disk, processes (`pkexec`,
  `systemctl`, the folder dialog), network and JSON.
