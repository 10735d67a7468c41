# sdrtop

A terminal monitor for the HackRF One. The monitoring logic is a library
whose functions carry machine-checked contracts; a thin program drives the
radio and the terminal around it.

- `src/` — the verified library: stream metrics and their polling, the
  receive-transfer statistics, the keyboard controls, device selection,
  `/proc` and colour parsing, layout presets, themes, the integer text and
  layout decisions taken out of the panels, and the laws that tie them
  together (as `lemma_*` proof functions).
- `app/` — the program: libhackrf bindings, the terminal loop, drawing with
  ratatui, the FFT worker and the floating-point readouts.
- `tests/` — tests of the library on concrete values.
