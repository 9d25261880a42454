# dsh-desktop-tauri

The Tauri desktop shell of DeepSeek Harness, with its rules verified by
[Verus](https://github.com/verus-lang/verus).

- `src/` is the library. It decides: which requests the client document answers
  and which go to the Desktop Host, with which header fields; how the Host is
  launched, authenticated and stopped; what the page learns at boot; how the
  Host's event stream is queued and its mux streams are requested. Every
  function carries a contract, and the `law_` proof functions state what holds
  of several of them together.
- `app/` is the application around it: windows, files, processes and sockets. It
  performs the steps that the library hands out and hands back what came of
  them.
- `tests/` runs the library.

What is not proved but trusted stands in the functions marked
`#[verifier::external_body]`, each with a comment on what it relies on: header
maps and requests of `http`, documents of `serde_json`, URLs of `reqwest`,
handshake keys of `tungstenite`, and `String::from_utf8_lossy`.

Paths are Unix paths that are valid UTF-8.
