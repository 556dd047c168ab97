# groovebox

A sixteen-step drum sequencer with a graphical front end.

- `src/` is the verified library (Verus):
  - `app_state.rs` — the sequencer state (patterns, samples, mute/solo,
    selection, transport) and its operations, each specified against the
    abstract `SequencerView`; `tick` is one pass of the playback loop.
  - `display.rs` — the label shown for a sample path.
  - `laws.rs` — properties that hold across operations (the bar loops every
    sixteen steps, solo is exclusive, mute silences, ...).
  - `maps.rs` — the instrument-keyed hash maps, behind trusted wrappers.
- `app/` is the program: the egui/macroquad window, audio playback with kira,
  file pickers with rfd, and the floating-point parts (tempo, volumes, clock).
- `tests/` exercises the library on concrete values.
