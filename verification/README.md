# Lindiction

Push-to-talk voice dictation for Linux: hold a hotkey, speak, release, and the
transcribed text appears at the cursor.

- `src/` is the verified library. It holds every decision of the daemon: the
  session's state machine, the hotkey grammar, the cleaning of transcripts, the
  edits of the configuration file, the choice and download of a model, the
  update check and the order of its install steps. Contracts are stated over
  sequences of characters and samples; laws that relate several functions stand
  as public proof functions at the end of each module.
- `app/` is the program around it: command line, files, processes, microphone,
  decoder, tray and notifications. It carries out what the library decides.
- `tests/` run the library with the crates it calls.

The library calls `regex`, `semver` and `toml_edit` through wrappers in
`pattern.rs`, `version.rs` and `toml_doc.rs`, whose doc comments say what is
taken on trust.
