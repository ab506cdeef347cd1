# SlotForge core

SlotForge manages PC game saves: it finds the folders where games keep their
saves, keeps copies of them in a vault, and swaps a vaulted save back into a
game's active folder with a rollback when anything goes wrong.

This crate is the verified core: the decisions of the application (path
handling, discovery, the library, the vault, the swap and backup transactions,
what the desktop shell is shown) are functions with contracts proved by
Verus. Reading and writing files, the
floating-point success rates of the metrics and all printing are left to the
command-line program in `app/`, which hands the library what it saw and
carries out what the library decides.

Layout:

- `src/platform` — paths as text, with the rules of Unix paths (`/` is the
  only separator; no drive prefixes): normalization, components, `~` and
  environment expansion, default locations.
- `src/domain` — games, saves and the freshness of one save against another.
- `src/services` — configuration, ignore list, discovery, the canonical
  library, metadata and integrity, metrics, the swap and backup transactions
  (as state machines that answer each reported file-system outcome with the
  next step), and the vault.
- `src/api` — the values shown by the desktop shell and the decisions behind
  its commands.
- `src/ui` — navigation, theme and the state of each screen.
- `src/text`, `src/sorting`, `src/time` — character-level text, stable
  ordering by integer keys, and UTC instants (chrono does the calendar work).
- `app/` — the command-line program: file and environment access, JSON
  persistence (configuration, registries, the library cache), the loops that
  drive the transactions, and the desktop shell's commands as subcommands
  (`slotforge library`, `slotforge backup <game id>`, `slotforge restore
  <snapshot id> [choice] --confirm`, ...), answered in the shell's envelope.
- `tests/` — scenarios over the public API.
