# Spectral effect decision logic, verified

The integer state and decisions of a spectral MIDI effect, proved with
Verus: which voice a note takes and how notes are released, sustained,
choked and ended; MPE zones and RPN bend ranges; the expression-event queue;
pinned and held notes; the undo history of the editor and its parameter
gestures; the particle engine's pool, streams and keyed draws; the
publication of tuning, capture and display data between the audio thread
and the editor; the clipboard text of a curve; and the editor's key handling
and bin-to-curve mapping.

- `src/` is the verified library. Its functions state their results over
  views of plain values (`Seq`, integers, booleans), and the laws that
  relate several operations are public proof functions named `lemma_*`.
  The exception is the state shared through atomics (`display`, `curve`,
  `snapshot`): what a load returns is whatever some thread stored last, so
  those functions state only what holds of every outcome.
  Floating-point values cross into the library as the bits of their `f32`.
- `tests/` runs the library on concrete values.
- `app/` holds the floating-point companions of the library: capture
  averaging, channel bend, pressure and timbre, tuning offsets and keyboard
  cells, level envelopes, the analyzer range, and the numbers of a curve's
  clipboard text.
