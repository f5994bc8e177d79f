# DeskIcons

DeskIcons gives each Windows virtual desktop its own set of user Desktop
items. When the current virtual desktop changes, the Desktop entries of the
previous desktop are parked in its own folder, the parked entries of the new
desktop come back, and the saved icon positions are restored. A journal makes
every swap recoverable.

## Layout

- `src/` is the library, verified with Verus: the settings file, the swap
  journal and its recovery, the planning and running of a swap, the steps of
  an install, the layout files, path handling, percent-encoding, GUID text,
  the command line, and the texts the program shows.
- `tests/` runs the library on concrete values.
- `app/` is the Windows program around the library: the file system, the
  registry, Explorer's desktop view, the tray icon and the installer. It makes
  the calls to Windows; swaps, recovery and installs run as loops in which the
  library names each next action from the outcome of the last.

## What is proved

Among the laws stated and proved in `src/`:

- a swap writes its journal before each set of moves, and marks the target
  desktop active only after the journal says every move is made
  (`swap::lemma_swap_journal_discipline`);
- recovery from the journal finishes or rolls back any interrupted swap, and
  survives being interrupted itself (`journal::lemma_recovery_converges`,
  `journal::lemma_recovery_survives_interruption`);
- the journal is removed only after every recovery step and the marking of
  the active desktop succeeded (`recovery::lemma_journal_cleared_only_after_recovery`);
- an install copies the program at most ten times, and registers, links or
  starts nothing unless the copy succeeded (`setup::lemma_install_copies_bounded`,
  `setup::lemma_install_acts_only_after_copy`);
- a failed batch of moves is put back exactly (`swap::lemma_batch_undo_restores`);
- what is written to the journal and layout files reads back the same, and so
  do the settings, except that a poll interval out of range reads back clamped
  (`journal::lemma_journal_round_trip`, `layout::lemma_layout_round_trip`,
  `encoding::lemma_percent_round_trip`, `config::lemma_config_round_trip_clamps`).
