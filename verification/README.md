# handy_net

Networked speech-to-text: one machine offers its transcription engine to others,
and a machine without a fast engine uses it. The rules that server and client
follow are Verus code under `src/`: every function has a contract, and Verus
proves it.

- `transcript`, `windows`: long recordings are cut into overlapping windows, and
  the transcripts of the windows are joined again.
- `wav`, `pcm`: what is uploaded, and what goes over the wire.
- `settings`, `random`, `clock`: what the user has set, tokens, and the time.
- `server`: who is let in, when the server listens, what a request is answered,
  and the streaming sessions that share the engine with the batch requests.
- `remote_client`, `sse`: what the client asks for, and what it makes of the
  answers.
- `text`, `numerals`: strings as sequences of characters.

What two functions promise together, or a whole module, is stated as a public
proof function whose name begins with `law_`.

Calls into other crates and into std that Verus cannot see through stand in small
functions marked `external_body`, or in an `assume_specification`; the comment
above each says what is taken on trust.

`app/` is ordinary Rust around the library: HTTP, files and floating-point audio.
`tests/` runs the library with the real crates behind it.
