# shiki-tui

The terminal interface of the shiki notes manager: three panels (notebooks,
notes, preview) with an inline editor, popups and a quick-capture daemon.

`src/` is the verified library, every function proved against its contract
with Verus:

- `text` — character-sequence helpers (trimming, searching, lines, decimals).
- `editor`, `viewport`, `editor_keys`, `editor_mouse`, `multicursor` — the
  inline editor: word wrapping, the scrolled viewport and click mapping,
  find/replace matches, selections and highlighting, multiple cursors
  and `replay`, which replays one keystroke at every cursor through
  ratatui-textarea's text area.
- `mathfmt`, `mermaid` — LaTeX to Unicode, and mermaid flowcharts and
  sequence diagrams drawn as text.
- `capture` — the quick-capture protocol: requests, replies, routing.
- `keybindings`, `which_key` — configured keys, the key maps and the
  which-key popup with its filter.
- `layout`, `geometry`, `panel_drawer`, `panel_git`, `panel_outline`,
  `links_panel`, `list_nav` — screen layout and the panels' rows,
  hit-testing and list navigation.
- `state`, `types`, `prompts`, `navigation`, `input`, `icons`, `logs`,
  `clipboard`, `attachments` — application state enums, prompt texts and
  queries, paths and git URLs, the input box, icons, the status log's file
  format, OSC 52 copies and pasted-image names and links.
- `key_route`, `normal_keys`, `insert_keys`, `edit_keys`, `popup_keys`,
  `confirm`, `settings_keys`, `settings_fields`, `theme_picker`, `batch` —
  the decisions behind the application's input handling: which handler a
  key, a mouse event or a paste goes to; what a key does on the panels, in
  a prompt, in the editor and its find bar, and in each popup; what
  confirming a prompt or answering a yes/no dialog does; the settings
  popup's rows and keys; the theme picker's filtered list; the report of a
  batch move or copy. The application carries each decision out.

Calls into other crates (ratatui's layout solver, ratatui-textarea, chrono, base64, std's
Unicode tables) go through a few trusted wrappers whose contracts say what
those crates document.

`app/` holds glue around the library, not a runnable program: terminal,
clipboard, filesystem and socket I/O helpers, and the conversions between
the library's plain values and the types of ratatui, ratatui-textarea,
crossterm and arboard. The application object, its event loop and its
drawing are built on the notebook store and configuration crates, which are
not part of this repository, and are not here.

`tests/` runs the library on concrete inputs.
