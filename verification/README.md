# riftx

A terminal explorer for GitHub, GitLab, Codeberg and Gitea repositories: browse a
repository's tree without cloning it, search it, preview files and download what you pick.

## Layout

- `src/` — the library, verified with Verus:
  - `text`, `input`: strings as character sequences; the byte cursor of the input line.
  - `fuzzy`, `sorting`: fuzzy matching and scoring; stable ordering of listings.
  - `providers`, `github`: repository URLs, API endpoints, listings as nodes, error text.
  - `config`, `theme`: settings, history, palettes.
  - `app`, `app_*`: the interface's state and every transition a key or a finished
    request causes; work for the outside world is queued as `Effect`s.
  - `tasks`: the decisions of the directory walk and of a download with retries.
  - `cli`: command-line arguments and the `config` subcommand.
  - `view`, `ui_logic`: what each screen shows (badges, counts, marks, positions).
  - `status`: the text of the status line and of the preview notices.
  - `laws`: properties across calls (cycles, undo, backoff, suggestions, splitting,
    recent-repository shortcuts, address padding, rebuilding the listing).
- `app/` — the program around it: terminal, drawing, HTTP, files, clipboard.
- `tests/` — tests of the library.
