# wsl-relay

A small Windows tray program that exposes a localhost REST API for WSL and
Docker tools: toast notifications, the clipboard image as PNG, autostart at
login, and keeping the host awake while a client works.

- `src/` is the verified library (Verus): configuration, its sources by
  priority and port parsing, the per-endpoint decisions (which requests are
  refused, with which status and message), XML escaping and the toast
  document, DIB to PNG conversion with the minimal fallback PNG and its
  CRC-32, UTF-16 strings for Win32 calls, what the tray window does with each
  message, and the power-inhibit state machine with its laws
  (`src/power/laws.rs`).
- `app/` is the program around it: the axum server and JSON bodies, the tokio
  runtime and expiry timers, reading the TOML configuration and the
  environment, the tray window and its message loop, and the Windows backends.
- `tests/` exercises the library on concrete values.
