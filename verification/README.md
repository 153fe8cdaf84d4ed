# intro_skip

Startup automation rules for the Teamfight Manager 2 mod *Intro Skip*, written
in Verus and proved against their contracts.

- `src/` — the verified library:
  - `text.rs`: character-sequence helpers (first occurrence, `trim_start`, …);
  - `json.rs`: the lenient reader for single values of the settings and
    Better Mod Menu action documents;
  - `settings.rs`: defaults, the settings document, reading it back, and the
    proof that a written document reads back unchanged;
  - `notice.rs`: the status notice of the settings panel;
  - `ui_tree.rs`: searching and changing the UI tree;
  - `panel.rs`: which nodes of the settings panel show;
  - `backups.rs`: save and backup names, selection of the latest and recent
    backups, expiry, file names and time stamps, byte comparison, the steps of
    the retention cleanup and of the byte-verified copy (copy to a temporary
    file, check size and bytes, only then rename), with their laws;
  - `save_backup.rs`: the steps of backing up the latest career save (reuse
    a byte-identical existing backup, or make a new verified copy), with the
    laws that a success comes only from one of those two;
  - `extension.rs`: the per-frame decisions (title screen, Continue, the guarded Load Anyway,
    the panel, clicks), each method's effect as a step of one event model, and
    the save-safety laws over sequences of those steps.
- `tests/` — tests on concrete values.
- `app/` — the game-facing glue: Mod SDK callbacks, Win32 window calls, file I/O;
  it carries out the steps the library decides and reports what happened.
