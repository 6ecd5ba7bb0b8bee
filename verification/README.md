# voicevox_playground_tui

A line-oriented text editor that reads each line aloud with the VOICEVOX
speech engine, with voice tags (`[character]`, `[style]`, `[N]`), tabs,
folding, an intonation editor, and a mascot renderer that mouths along.

- `src/` is the verified library (Verus): tag parsing and the speaker table,
  the editing commands and the keys of the Normal, Insert, help and
  speaker/style modes, tabs and the session, history file names and lines,
  playback and prefetch planning (the choice between the cache and a
  synthesis included), the synthesis worker's decisions, overlay and notice
  state, the mascot session, its playback sync and the PSD list, the
  renderer's HTTP replies, the request log's text, configuration paths and
  the intonation editor's keys and clicks. `src/tag_laws.rs` holds what is
  proved of the tags across calls.
- `tests/` runs the library on concrete inputs.
- `app/` is the program around it: the terminal, files, the engine and the
  renderer over the network, audio and the clipboard.
