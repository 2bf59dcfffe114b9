# Parallax core

The verified core of Parallax, a local-first API client: the parts of sending
requests, logging in to framework backends, reading streams and exploring
project schemas that compute rather than communicate. Verus proves the
contracts of the functions in `src/`, except for the small trusted wrappers
(marked `#[verifier::external_body]`, plus one `assume_specification`) that
call outside crates and std; their contracts are believed, not proved, and each
names the outside function it relies on.

- `src/` — the library, one module per concern: `text` (character-level helpers),
  `template` (`{{variable}}` resolution), `crypto` (hashes and encodings), `form` (url-encoded and multipart bodies),
  `cookie`, `http_engine` (request plans, Digest and AWS SigV4 signing, responses),
  `providers` (framework detection and login flows), `protobuf` and `grpc`
  (framing and server reflection), `sse` and `events` (streams, WebSocket frames,
  chat), `github`, `git`, `workspace` and `schema` (the schema explorer).
- `tests/` — tests of the library on concrete values.
- `app/` — the command-line program around the library: network, files, Git and
  the JSON/YAML forms of its types.
