# pandafit

Fits a film onto an optical disc: probes the file, lets the user keep, drop or
transcode each track and trim the film, estimates the size of the result with
an honest confidence interval, explains the consequences of each decision and
produces the chain of commands (ffmpeg, dovi_tool, mkvmerge, growisofs) that
builds and burns it.

Layout:

- `src/` — the library, verified with Verus. Sizes, plans, diagnostics and
  command chains (`estimate`, `explain`, `compile`, `plan`, `codecs`), the
  session state machine (`session`), the step-running state machine
  (`chain`, `runner`), and the readers of what the external tools print
  (`probe`, `progress`, `disc`, `sampler`, `preflight`, `parse`).
- `tests/` — tests of the library.
- `app/` — the desktop program (eframe/egui), the file dialog, the child
  processes and the JSON decoding; it hands plain values to the library.
