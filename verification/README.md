# sidebar

The right-hand sidebar of a window over git worktrees: a file tree with inline
editing, a clipboard, drag and drop and undo, and a changes panel with staging,
seen marks and a commit composer.

What the sidebar decides is verified with Verus: each function says in its
contract what it returns and what it changes, and the `law_` proof functions
state what holds across functions. What needs floating point is not: how full
the meter of seen files is, and where the commit menu's popover hangs, stand in
`app/paint.rs`.

- `src/` is the library. `spelling`, `path`, `path_set`, `table` and `text` hold the values
  that the rest is built from. `change_set`, `sections`, `panel`, `staging` and
  `composer` are the changes panel; `tree`, `fold`, `selection`, `documents`,
  `history`, `state`, `inline_edit`, `menu`, `moves` and `undo` are the file
  tree; `change_row`, `section_view`, `composer_view`, `tree_view`, `chrome`
  and `keys` say what is drawn and which keys are live.
- `app/` performs what the library asks for: it touches the disk, calls git and
  paints.
- `tests/` runs the library on concrete values.

Two things are believed and not proved: how the standard library writes a text
in upper case (`text::to_uppercase`), and that `String::push` puts a character
behind a text (`path`).
