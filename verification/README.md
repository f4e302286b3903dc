# gitara

A git client whose decisions are proved with Verus.

`src/` is the verified library:

* `graph_layout` — lane assignment for the commit graph, with laws on row
  shape, linear history, first-parent continuation and the shared column
  bound.
* `git::ops` — the git command lines of every write operation, the
  refusals of bad input, and the step-by-step runner protocol; every
  user-supplied name reaches git after `--end-of-options`.
* `git::log`, `git::refs`, `git::diff`, `git::status` — what is built from
  repository reads: commit rows and their ref chips, reflog and stash
  entries, remotes, tags, changed files and hunks, working-tree counts.
* `app`, `modals`, `actions`, `startup`, `choices`, `inspector`,
  `present` — the commit workbench, the dialogs' OK buttons, context
  menus, toolbar and sidebar effects, launch settings, dialog choices and
  the texts the panes show.
* `desktop_install`, `theme`, `clock`, `mock`, `text` — desktop-entry
  text, appearance mode, dates, demo data and string helpers.

`app/` is the executable around it: repository reads through `gix` and
`git2`, running `git`, settings, desktop integration and the icon.

`tests/` exercises the library on concrete values.
