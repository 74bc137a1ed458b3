# tfmttools

`tfmt` renames audio files from their tags with `minijinja` templates, and
keeps a history of its runs so that they can be undone and redone. This
crate is its core, written in Verus: every function in `src/` carries a
`requires`/`ensures` contract that Verus proves, and the laws that the
tool promises are stated as proof functions.

## Layout

- `src/` — the verified library.
  - `validation.rs`, `messages.rs`: checking a rename plan before anything
    moves (collisions, case-only collisions, existing targets, Windows
    device names, leading or trailing spaces and periods, path length) and
    the messages of its errors. Law: a plan is accepted exactly when it is
    valid (`lemma_plan_accepted_iff_valid`); an existing target is reported
    only when the plan does not free it
    (`lemma_target_exists_only_when_blocking`).
  - `sanitize.rs`, `context.rs`, `item_keys.rs`, `filters.rs`: tag values
    as templates see them; sanitizing is idempotent and tags cannot make
    folders.
  - `planner.rs`, `handler.rs`, `action.rs`: staged renames through
    temporary paths (safe for swaps and cycles), the file operations of
    each action and their undo.
  - `history.rs`, `formatter.rs`: the run history, its undo and redo
    lists, and its text.
  - `frontmatter.rs`, `templates.rs`: template frontmatter and arguments.
  - `cleanup.rs`, `commands.rs`, `options.rs`, `ui.rs`, `error.rs`: what is
    left after a run, the commands' decisions, options, previews and
    prompts.
  - `container.rs`, `mounts.rs`, `launch.rs`: the rules of the container
    end-to-end suite (case selection, setup scripts, the verifier's
    judgements, the step and image state machines).
  - `paths.rs`, `text.rs`: path and text helpers; path grammar comes from
    `camino` through trusted wrappers whose contracts name its results.
- `tests/` — tests of the library on concrete values.
- `app/` — the `tfmt` command: argument parsing, the file system, the
  terminal, template rendering and tag reading, around the library.

## Verification

Verus verifies the library from `src/lib.rs`; it holds no `assume` and no
`admit`. The tests in `tests/` run against the compiled library.
