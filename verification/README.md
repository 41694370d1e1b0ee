# skills

The verified core of a skills manager: parsing install references, deciding
how sources are acquired and recorded, checking downloaded archives and
planning every file an extraction writes, bounded decompression, the planning, backup and
rollback of the preset migration, and the presentation rules of the terminal interface (settings
precedence, icons, colours, card and panel geometry, dialog focus, and how
the tags and presets pages answer keys, the regions and texts of the group
prompt, the name-conflict dialog, the strips of group badges, pills and
compact skill rows).

- `src/` is the library. Every function in it carries a contract that Verus
  proves; calls into `ratatui`, `tui-markdown`, `flate2`, `bzip2`,
  `lzma-rust2`, `zip` and `tar` go through small trusted wrappers whose contracts say what
  those crates promise.
- `tests/` exercises the library with the real outside crates linked.
- `app/` holds the I/O around it: running `curl`, creating the directories
  and files of an extraction plan,
  walking directories, parsing presets and replacing files during a
  migration, drawing the regions the library computes, and converting
  between the library's terminal types and `ratatui`/`crossterm`.
