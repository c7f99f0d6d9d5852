# git-review

A terminal viewer for Git diffs: the working tree, the index, the default branch or any
revision or range, file by file and hunk by hunk, with syntax highlighting from tree-sitter
grammars and colors taken from Git's configuration.

## Layout

- `src/` is the verified library, written in Verus:
  - `cli` — the command line's model: which diff was asked for, and revision parsing.
  - `model` — the diff model (files, hunks, lines), the collector that builds it from a diff
    printer's events, and the choice of the default branch.
  - `buf` — a file version split into lines, and its syntax colors.
  - `syntax` — which language a file is in, the grammar search path, and the highlight colors.
  - `tui` — the viewer's state and requests, the diff view's drawing, the theme, the keymaps,
    the file selector and the editor choice; `tui::laws` states what holds across requests.
  - `pager` — a pager over the text of a patch.
  - `layout`, `style`, `text`, `eventing` — screen areas, colors and styles, strings, events.
- `app/` is the program around it: command-line parsing, logging, Git access, grammar loading,
  the terminal and its input thread.
- `tests/` runs the library on concrete values.
