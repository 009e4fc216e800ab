# coopy

Copies the notes of an Obsidian vault that are marked `publish: true` in
their YAML front matter to a blog's content folder, keeping their relative
paths, and keeps the settings that steer it (`config.toml`).

- `src/` is the verified library: the command line's processing (`cli`,
  `args`), the settings and their updates (`config`, `vault_fn`), the
  settings file as a TOML document (`settings_file`), front matter
  extraction (`obsidian`, `util`), the sync's decisions (`sync`) and the
  character-level helpers they share (`text`).
- `app/` is the program around it: argument parsing, reading and writing
  files, prompting, walking the vault and copying.
- `tests/` runs the library on concrete inputs.
