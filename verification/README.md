# subtitle_fast

The logic of the subtitle-fast desktop tool, written in Verus and proved
against its contracts: settings resolution and configuration precedence,
OCR model paths and their download bookkeeping, detection task and backend
fallback state, sessions and the main window's handling of them, the video
player's command handling and the decisions of its decode loop, NV12 frame
overlays, the video toolbar's rules, menus, and the state behind the text
inputs, the configuration editor and the subtitle editor.

What is not here, and why:

- The desktop interface itself (windows, rendering, layout, animation) is
  built on gpui, which this crate does not depend on, and most of its
  remaining logic is geometry in floating point. The library holds the
  decisions that the interface takes on plain values, for it to call.
- The decoding, detection, comparison and OCR pipeline lives in the
  project's own `subtitle_fast_*` crates, which this crate does not depend
  on. The library holds the state that drives a
  detection task and the fallback between decoder backends; the command-line
  program resolves the settings and the OCR models and prints the plan it
  would run.

Layout:

- `src/` the verified library, one module per concern; each module's doc
  comment says what it holds. Laws that relate several operations are
  public proof functions named `lemma_*`.
- `tests/` tests on concrete values, run against the compiled library.
- `app/` the command-line program around the library: argument parsing,
  the configuration file, model downloads over HTTP with progress bars,
  and the floating-point region of interest.
