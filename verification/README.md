# VoxClaw

A voice assistant and input method for Windows: dictation that is put out into the program that has
the focus, skills that are carried out by voice, an agent with tools, and meetings that are recorded,
transcribed and summed up.

## Layout

- `src/` is the library, written in Verus: what the program decides and computes, each function with
  its contract. Public proof functions whose names begin with `law_` state what holds across
  functions.
  - `dictation`, `recording`, `transcription`, `input_listener`, `keyboard`, `window`: from the
    trigger to the text that is put out.
  - `skills`, `skill_engine`, `skill_run`: spoken commands, clause by clause, while they are spoken.
  - `agent`: messages, requests, providers, tools, safety rules, runs, and session logs.
  - `asr`: decoding, endpointing, feature layout, and the models of the two offline engines.
  - `meeting`, `commands`: meetings from start to summary, and the commands of the windows.
  - `storage`: settings with their recovery, history, and records.
  - `text`, `json`, `lists`, `paths`, `urls`: what the others are built from.
- `tests/` runs the library.
- `app/` is ordinary Rust around it: files, the network, inference, the clipboard, and the windows.
  The modules for Windows need `tauri` and its plugins, `cpal`, `sherpa-onnx` and `windows` as well.

The few functions of other crates that the library calls stand behind functions marked
`external_body`, whose doc comments say what is taken for granted.
