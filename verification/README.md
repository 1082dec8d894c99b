# cmux_diff

A terminal screen for reviewing local, uncommitted git changes: the staged,
unstaged and untracked files of a working tree, the diff of the selected
file, staging, unstaging and committing, and opening the selected file in
an editor. It has no discard or reset actions: a change is staged,
unstaged or committed, never thrown away.

The library in `src/` holds the screen's logic, verified with Verus:

- `text`: strings as sequences of characters: lines as `str::lines` splits
  them, trimming, decimal numerals, prefixes, path components, and the order
  of `String`.
- `model`: change sections and entries, status snapshots, diffs, status
  messages.
- `git`: the parsers of `git status --porcelain=v2 --branch` and
  `git diff --numstat`, the order of the change list, the diff pane built
  from a diff's text, and the command lines (global options included) and exit-code checks of git.
- `diff`: scroll arithmetic of the diff pane and its hunk headers.
- `app`: the screen's state: selection, focus, the commit message, the git
  request each action makes, and what each key press does to it.
- `keys`: what each key asks for.
- `ui`: the text and styles of the panes: titles, diff lines and their
  colours, the header, the change list with its headings and highlighted
  row, key hints.
- `editor`: which editor opens a file and how.
- `layout`: the screen's areas: ratatui divides the screen, and which part
  becomes which area is this library's.

`app/` is the program around it: it reads keys, runs git and the editor,
and draws with ratatui on termion.
