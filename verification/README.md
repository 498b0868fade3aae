# codex_openai_proxy

A proxy that accepts OpenAI Chat Completions requests and forwards them to the ChatGPT
Responses backend, with its request and reply logic verified by Verus.

- `src/` — the verified library: the JSON model (`json`), text operations (`text`), the data
  of both APIs (`types`), request conversion (`convert`), event streams (`sse`), replies and
  model lists (`reply`), routing, headers and diagnostics (`http`), and properties that span
  them (`laws`).
- `app/` — the server: command line, logging, the HTTP client and the routes, with the serde
  forms of the library's types.
- `tests/` — tests of the library on concrete values.
