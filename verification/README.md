# vlyness

A tunnel that looks like ordinary HTTPS traffic, with its logic verified by Verus.

- `src/` is the library. Its functions carry contracts that Verus proves:
  - `wire`: frames, addresses, tokens, the guard against replays, the Noise layer;
  - `transport`: stream events, records, sessions with changing keys;
  - `carrier`: which request carries a session, the write gate of an HTTP/2 stream, and what
    TLS is set up with;
  - `node`: the relay between streams and sockets, SOCKS5;
  - `discipline`: backoff, the budget of connections, blackhole detection, the manager;
  - `shaping`: lengths of records, rhythm, the ratio of both directions;
  - `profile`: profiles and their coherence;
  - `config`: keys as text and what follows from a profile;
  - `text`, `random`, `time`: strings, random numbers and the clocks.
- `app/` is the program around it: sockets, TLS, HTTP/2, files and the environment.
- `tests/` runs the library with the real crates.

## What is taken on trust

What the library has from other crates is called through small functions marked
`external_body`, each with a comment that says what is claimed of the call: BLAKE2s
(`blake2`), constant-time comparison (`subtle`), base64 (`base64`), Noise (`snow`), random
numbers (`rand`, `rand_core`), certificates and ECH configurations (`rcgen`,
`rustls-pemfile`, `rustls`), and a few functions of the standard library (the clock, UTF-8, lower case).

What rests on the strength of a cipher or a hash is not stated: that an altered record, or a
handshake under another token, is refused. The tests show it on examples.

## The program

    vlyness server
    vlyness client

Both are set up by environment variables, which `app/server.rs` and `app/client.rs` list.
