# workhorse

The verified core of an interactive harness that routes prompts across
language models, runs tools on MCP servers and keeps conversations in
persistent sessions.

`src/` is a Verus library. Its functions are verified against their
contracts, except the small wrappers marked `#[verifier::external_body]`
that call outside code (serde_json, tiktoken-rs, backoff and a few std
functions): Verus takes their contracts on trust, and each one's doc
comment says what it calls and what the contract claims.

- `engine`: model identifiers and routes, the conversation state of a
  session (system prompt, sliding context window, spending limit, slash
  commands, taking in a model's reply and ending a turn), ranking scopes
  and the ranking switch, the ranking commands, and the reordering of a
  route by ranking.
- `adapters`: the provider-neutral reply events, the deterministic mock
  adapter, the decisions of the chat-completions adapter (status, reply
  body, usage, events) and the retry policy.
- `tools`: tool results and their content, sandbox levels, consent, the
  reading of MCP replies, the cache of tool definitions, and base64
  decoding.
- `config`: configuration defaults, routing validation, path expansion.
- `json`: the JSON values built and read through serde_json, with names
  for what serde_json computes.
- `text`: the string operations the rest is written with, stated over
  `Seq<char>`.

The laws of the library are public proof functions (`law_*`), next to the
functions they speak of.

`app/` is the program around the library: configuration loading, the
SQLite stores, the HTTP and MCP transports, the floating-point scoring of
rankings, logging and the interactive loop. `tests/` exercises the library
with the real outside crates linked.
