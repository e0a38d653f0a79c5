# codex_api

The part of a client for model providers that decides what is sent and what is made of what comes
back, written in Verus: the contracts of the library are proved, not only tested.

A client speaks one internal protocol: a request with a conversation in it, and a stream of response
events. Providers offer three interfaces for it, the Responses API, chat completions, and Anthropic
Messages. The library turns requests into the bodies that each of them takes, and their streams of
server-sent events into response events.

## Layout

- `src/protocol.rs`: requests, conversation items, response events, each with its model.
- `src/json.rs`, `src/json_text.rs`: JSON values, and reading JSON text through `serde_json`.
- `src/text.rs`, `src/seqs.rs`, `src/ordered.rs`: text, sequences, maps in the order of their keys.
- `src/roles.rs`: the roles that the interfaces know.
- `src/reasoning.rs`: the reasoning behind tool calls, kept until the calls are sent back.
- `src/endpoint/`: request bodies, tools, headers, and the plan for a request.
- `src/sse/`: the two streams as state machines. The `*_model.rs` files say what a stream makes of
  each input; the `*_laws.rs` files prove what holds of every stream, and `anthropic_brackets.rs`
  that every delta stands between the announcement and the close of its item.
- `tests/`: tests of the library with the outside crates linked.
- `app/`: ordinary Rust around the library: the client, the decoding of values with `serde`, and the
  tasks that read streams.

## What is trusted

Calls into `serde_json`, `http` and two functions of `std` on `str` stand behind small functions
whose contracts are stated, not proved. They are in `src/json_text.rs`, `src/endpoint/headers.rs` and
`src/text.rs`, each with a comment that names the function it calls and says what is claimed of it.
