# jarvis_core

The verified core of a local voice assistant, written in Verus.

- `src/listen_window.rs` — decides, frame by frame, when a spoken command is
  over (silence after enough speech, a minimum listening time, a hard cap).
- `src/history.rs`, `src/chat.rs` — the conversation kept for the language
  model (system prompt plus the newest turns), chat messages, client settings,
  the completions URL and the judgement of an HTTP answer.
- `src/fallback.rs` — trigger-phrase extraction and the two halves of answering
  a prompt (record and snapshot; record the reply or take the prompt back).
- `src/commands.rs` — per-language phrases and sounds of commands, command
  lookup by id, and the training examples for the intent classifier.
- `src/frames.rs` — cuts microphone samples into whole frames.
- `src/detector.rs` — the WebRTC detector, with the rate and mode it was
  created with and a ghost record, kept by the calls themselves, of every
  frame judged and the answer it got.
- `src/webrtc.rs` — hands 30 ms frames to that detector and turns its answers
  into verdicts.
- `src/audio.rs` — the once-only choice of noise-suppression and
  voice-activity backends.
- `src/text.rs` — white space, trimming and the lower-casing used above.

`app/` is the daemon around it: environment, HTTP, JSON, global state,
the intent classifier and the floating-point neural detector.
