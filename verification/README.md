# clicky_companion

The verified core of a push-to-talk desktop companion: a tray app that captures
the screens, streams microphone audio to a live transcription socket through a
proxy worker, and speaks replies.

- `src/` — the library, verified with Verus:
  - `monitors` — session order of the monitors (primary first, then left to
    right, top to bottom; stable), their indices, the virtual-desktop bounds.
  - `capture` — downscaling, JPEG encoding and base64 of a captured screen.
  - `listen` — listen-token request and reply, the `Authorization` header,
    little-endian PCM framing, transcript messages and the session state machine.
  - `speech` — the text-to-speech request.
  - `settings` — user settings and their store.
  - `shell` — tray, panel and push-to-talk decisions.
  - `errors` — microphone and capture errors and their messages.
  - `text` — trimming helpers.
- `app/` — the Tauri shell around it: windows, tray, threads, audio devices,
  screen capture, HTTP and websocket I/O.
- `tests/` — tests of the library on concrete values.
