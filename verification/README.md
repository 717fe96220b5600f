# dglab

Control of a DG-LAB Coyote device over the WebSocket v2 protocol, driven by the judgements of a
rhythm game.

`src/` is the library, written in Verus. It holds the decisions: the embedded server and the client
of a relay as state machines, the messages they exchange, the way from a judgement to a strength,
addresses, and pairing codes. Every function has a contract that is proved, and `src/laws/` holds
what is proved of several of them together. JSON is left to `serde_json` and the making of QR codes
to `qrcode`; what is taken on trust of the two stands in `src/json.rs` and `src/qr.rs`.

`app/` is ordinary Rust around it: sockets, tasks, the texture, the hook into the game.

`tests/` runs the library on given values.
