# zoop_core

Core logic of Zoop, a pocket UPI payment terminal and voice notepad on an
ESP32-S3 e-Paper board, written in Verus and verified.

- `src/` is the library, and Verus verifies every function in it against its contract:
  the payment state machine and its application engine (`app`, `state`,
  `payment`, `upi`), button timing (`buttons`), ultra-sleep and battery
  warnings (`sleep`), the framebuffer, its BMP image and the screens (`display`), QR encoding and
  decoding (`display::qr`, `qr`), note storage over a model of the store's files
  (`storage`, with the verified in-memory store `storage::mem`), WAV recording
  (`wav`, `record`), transcription (`transcribe`, `whisper_parse`,
  `network::whisper`), the Wi-Fi connect policy (`network::wifi`) and the local
  web portal (`network::portal`, `portal_fmt`).
- The few calls into other crates (`qrcode`, `rqrr`) and into std without a
  Verus specification sit behind small trusted wrappers whose doc comments say
  what they claim.
- `app/` holds what stays outside the verified code: the floating-point battery
  curve and circle drawing, a temp-directory file store, error types with
  messages, the blocking retry sleep, and the simulator, UI-preview and QR-demo
  programs.
- `tests/` exercises the library from outside.
