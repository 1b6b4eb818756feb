# de

`de` is a small inline directory explorer for the shell: it shows the current
directory beside a preview of the highlighted entry, lets you walk into and out
of folders, and changes the shell's working directory only when you confirm.

The library under `src/` holds the explorer's logic with Verus contracts and
proofs:

- `listing`, `order`: entries, the listing order (directories first, then names
  ignoring case, or modification time), hidden entries and the filter.
- `app`: the explorer's state; every operation keeps the highlight on a listed
  entry, and directory reads are requested from the caller and handed back.
- `keys`: what each key event does, and the viewport's height on the terminal
  as it is resized and as the content changes.
- `screen`: what is drawn where, as lines of styled text in areas; the areas
  come from ratatui's layout, and the drawing is proved for any areas given.
- `terminal`: the cursor moves and style changes that draw a frame inline.
- `config`, `theme`, `store`, `toml`, `error`, `color`: display preferences,
  the theme catalog, and the edits that save a theme or add a custom one while
  keeping the file's other keys and values; a legacy `theme = "…"` line takes
  its comments along when it becomes a `[theme]` table.
- `paths`: paths are kept as the system's bytes (`PathBuf`), and names as
  bytes, so that a name that is not valid UTF-8 can still be entered and is
  printed back unchanged; names are shown, filtered and compared as text
  only where that is what the explorer does.

`app/` is the program around it: the command line, the terminal, and the file
system.
