# codex_addons

Rules for saved accounts and for JavaScript workflows of a coding agent, as a library whose functions
carry contracts that Verus proves.

- `src/accounts`: saved accounts. Which credentials are saved and which are in use, how an account is
  selected, added, switched to and logged out, how logins start and end, what the backend's answers
  mean, which account to turn to after a rate limit, and how usage windows are primed. `laws` states
  what holds across operations.
- `src/workflows`: workflows. The grammar and parser of a workflow's declaration, the program that
  runs it, the journal of a run and the files of runs.
- `src/tui`: what a terminal shows of accounts and priming, and how its commands act.
- `src/table`, `src/text`, `src/paths`, `src/ids`: tables, strings, paths and identifiers.
- `app`: files, network, clocks and the terminal around the library.
- `tests`: the library from outside, on concrete values.

An operation on the saved accounts works on what was read from disk and notes every change to be made
there, in order; `app` makes the changes. What depends on time, chance or the machine is handed to the
library as a value.
