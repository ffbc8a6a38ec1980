# voca

The verified core of VOCA, a local-first dictation orb: press a hotkey,
speak, and the transcript is typed into the focused window.

- `src/` — the library, verified with Verus:
  - `orb` — the orb's five states and its transition relation;
  - `pipeline` — the decisions of the record → transcribe → inject flow;
  - `audio::ring_buffer` — fixed-capacity sample buffer;
  - `audio::vad` — the frame state machine of the energy-based voice
    activity detector (the energy measure itself is floating point and is
    supplied by the caller);
  - `stt::postprocess` — transcript clean-up;
  - `inject` — the order of injection attempts, UTF-16 key events, the
    Linux typing command;
  - `downloader` — model catalogue, file names, download digests;
  - `autolaunch` — what enabling auto-launch takes on each platform;
  - `history` — history search patterns.
- `app/` — the Tauri shell around the library: window, tray, commands,
  microphone, recognizer, SQLite history, configuration file, downloads,
  registry and clipboard access.
- `tests/` — tests of the library.
