# codex-patcher

codex-patcher keeps a patched build of Codex current and points the launchers of
the machine at it. A directory of patches and a small configuration say what is
wanted; every launch checks whether the sources or the patches have changed,
builds what is missing, and otherwise starts the last good generation.

## Layout

- `src/` is the library. Every rule of the patcher stands there, with a contract
  that Verus proves: what a patch stack is and how it is fingerprinted
  (`patchset`, `patchset_laws`, `byte_order`), which upstream source is wanted (`upstream`, `upstream_cache`,
  `probe`), how a generation is built and checked (`build`), when one is
  activated (`update`, `state`), what a launch does (`arguments`, `dispatch`,
  `tui`), how launchers are found, chosen, taken over, repaired and given back
  (`discovery`, `discovery_seeds`, `candidates`, `selection`, `surface`, `cas`,
  `journal`, `transactions`, `elevation`, `updater`, `security`, `store`), how a broken patch
  stack is repaired (`repair`, `repair_session`, `repair_run`,
  `replacement`), and what the
  commands of the manager do (`setup`, `report`, `quickstart`).
- `tests/` runs the library on concrete values.
- `app/` is the program: it reads files, runs processes, asks GitHub
  and draws the terminal, and hands what it finds to the library.

Operations that change the machine are functions from what is known so far to
the next step. The program performs the step, adds what came of it to the facts,
and asks again, so that the order of the steps is proved and not only tested.

Paths are texts that are taken apart by the rules of the platform that the caller
names (`paths`, `windows_paths`), so the library decides for Windows as it does for
Linux and macOS. The program in `app/` is the one for Linux. `layout_laws` says where
the patcher's own files lie, and `locking` what the state lock does for those who
update the state at the same time.

The few results that come from other crates (hashes, release versions, Unicode
folding, TOML documents) stand behind the trusted items of `src/outside.rs`.
