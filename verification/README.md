# launcher

A small window that keeps a working copy of a tool repository up to date,
lets the user pick a branch and a run type (debug or release), builds the
branch with cargo while showing how many crates are compiled, and starts the
built binary. `--last-config` does the same for the remembered branch and run
type without a window.

- `src/` is the verified library: every decision of the launcher (which
  branches a listing names, which one to preselect, what the configuration
  file says, what git's progress output reports, what cargo's output names,
  which commands to run, and the window's and the headless run's state
  machines), each with its contract.
- `app/` is the program around it: the egui window and theme, the background
  threads, and the file and process work. It performs what the library asks
  and hands back what happened.
- `tests/` runs the library on concrete inputs.

The window's fonts are read at start-up from `assets/fonts/` next to the
executable (or in the working directory); without them egui's own fonts are
used.
