# a2a_bindings

The A2A protocol carried over pipes and sockets: a library whose rules are
verified with Verus, and a thin program around it.

Calls and answers are JSON-RPC. Two bindings carry them between a client and an
agent:

- `stdio`: the client runs the agent and the two exchange length-prefixed frames
  over its standard streams, after a handshake that settles the session, the
  protocol variant and the features.
- `websocket`: each message is an envelope in a text frame. The upgrade, the
  credentials, the limits and the closing of a connection have rules of their own.

Two simpler forms of the second stand in `client_socket`, `server_socket` and
`envelope`. `client` holds what every client does whatever carries its calls,
`protojson` the finishing touches to payloads, and `plugin` the rules of a
transport plugin.

## Layout

- `src/` is the library. Nothing in it reads or writes: each loop is a function
  from a state and an event to the next state and an action, with a contract.
  Functions named `law_..` state what holds of several of them together.
- `tests/` runs the library on concrete values.
- `app/` does the reading and the writing, and hands the library what came of it.

What the proofs rest on besides Verus is marked `external_body` or
`assume_specification`, with a comment that says what is believed of which
function: a few of the standard library, and calls into `bytes`, `serde_json`,
`uuid`, `fastwebsockets`, `tungstenite`, `http`, `rustls` and `rustls-pemfile`.
