# motif

A small LLM agent: it talks to an OpenAI- or Anthropic-style chat API,
runs tools that the model calls, keeps the conversation history, and
offers a line client and a full-screen terminal client.

## Layout

- `src/` is the library, verified with Verus. It holds the decisions of the
  agent loop (`agent`), the conversation types (`types`), histories
  (`history`), the layered system prompt (`prompt`), the provider protocol
  (`provider`: endpoints, retries, request layout, reply mapping, event
  stream framing), tool scheduling (`tool`), the built-in search and write
  tools' rules (`tools`), the line client's commands (`cli`) and the chat
  screen's state (`tui`, `terminal`).
- `app/` is the program around it: HTTP, files, the terminal, async tool
  execution and hooks. `motif` starts the line client, `motif tui` the
  full-screen one.
- `tests/` exercises the library on concrete values.

Calls into outside crates (regex, serde_json, chrono) sit behind small
trusted wrappers whose contracts are stated next to them.
