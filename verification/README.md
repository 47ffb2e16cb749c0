# llm_proxy

A verified core for a local proxy in front of LLM APIs: it converts between the
OpenAI Responses API, OpenAI Chat Completions and Anthropic Messages, routes
requests by path and model, decides on retries, and restores tool calls that a
follow-up request leaves out.

The library in `src/` is written in Verus. Every function states in its contract
what it returns, and Verus proves it.

| Module | What it holds |
| ------ | ------------- |
| `json` | JSON values and their model; parsing and printing through `serde_json` |
| `text`, `lists` | strings and sequences |
| `format` | the protocols, their paths, and which of them an upstream accepts |
| `config`, `environment` | routes, models, defaults, and `${ENV_VAR}` references |
| `headers` | which headers pass through the proxy, over `http::HeaderMap` |
| `proxy` | routing and planning of requests, and the proxy's own answers |
| `retry` | when a request is sent again |
| `relay` | how an answer, or a stream, reaches the client |
| `log` | the log filter, and the model that a request names |
| `transform` | the conversions: requests, responses and streams, in all directions |
| `transform::history` | tool calls of earlier responses |

What holds of several functions together stands in proof functions: in
`transform::laws`, `transform::stream_laws`, `transform::round_trip`,
`transform::history_laws`, and beside the functions that it is about.

`app/` is ordinary Rust around the library: configuration files, logging, and the
HTTP traffic. `tests/` runs the library.
