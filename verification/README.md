# repo-scan

Find every Git repository under a few folders and report where each one stands — branch,
upstream, ahead/behind, stash count, in-progress operation, tip commit, last fetch, dirty flag,
conflicted and per-column file counts, submodules — reading Git in-process with `gix`, and keep
those rows current as the repositories change.

## Layout

- `src/` — the library, verified with Verus. Each public function states what it returns in
  its contract, over views of its types; the laws that span functions (tier merges commute and
  own only their fields, a shared watch path survives one holder leaving, a batch of changes
  names each repository once, a fetch pass counts each outcome once, …) are public proof
  functions beside the code they are about.
  - `model`, `merge`, `state`, `refresh` — rows, the tier merges, the canonical state, and
    reading one row on demand.
  - `discover`, `exe` — what a walk prunes, what a directory is, reporting each repository
    once; the order a program is looked for on `PATH`.
  - `status/` — Tier 0 (refs), Tier 1 (dirty flag, conflicted count), Tier 2 (file counts,
    submodules), each read through `gix`.
  - `fetch`, `pipeline` — what a `git fetch` is asked, when it is skipped, what its ending
    means, how a pass or a scan is counted, and which events a scan sends after each batch.
  - `watch`, `live`, `stream` — the watch set, the registry of who watches what, the
    per-repository cooldown, the poll's decisions, and batching.
  - `settings`, `open`, `webview`, `text`, `paths`, `pathmap`, `clock`, `error` — the rest.
- `tests/` — the library's tests, several against trees of real repositories built with `git`.
- `app/` — a command-line front end: the parallel walk, the thread pools, processes, the
  filesystem watcher and the JSON files. It reads the interrupt flag and stops where it is set;
  what it reads, counts, sends and keeps is decided by the library.
