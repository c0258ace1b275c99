# ade_core

The engine of ADE, a provider-agnostic coding agent: a model is offered tools, asks for
them, and every change it wants to make waits for a yes. The engine is written in Verus;
what it does is stated in contracts and proved.

## Layout

- `src/` is the verified engine. It performs no I/O: whoever drives it hands it what was
  read and carries out what it asks for.
  - `config`, `keystore`, `paths`, `session`, `skills`: what a session is set up from
  - `provider`: requests to and replies from the model APIs (OpenAI-compatible,
    Anthropic, Gemini), whole or streamed
  - `tools`, `permission`, `approver`: the tools, and who may use them
  - `mcp`: servers that bring tools of their own
  - `agent`: the turn, from a prompt to the reply that asks for nothing more
  - `cli`, `gui`, `git`, `terminal`: the rules behind the two shells
  - `json`, `text`, `error`: what the others are built on
- `app/` drives the engine: command line, files, HTTP, child processes, terminals.
- `tests/` runs the engine.

Beside the contract of each function, properties of several functions together are
public proof functions whose names start with `law_`.

## What is taken on trust

`serde_json` reads and writes JSON text, and two functions of the standard library append
a character to a string and decode bytes. Each such call stands in one function marked
`external_body`, with a doc comment that says what is claimed of it (`src/json.rs`,
`src/text.rs`, `src/provider/sse.rs`).
