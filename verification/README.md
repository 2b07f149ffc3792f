# npulama

A system-tray application that turns Microsoft Foundry Local into an OpenAI-compatible API
endpoint, for the machine itself or for the network, with optional bearer tokens.

What the application decides and computes is a library in `src/`, verified with Verus. What
listens, sends, draws and stores is ordinary Rust in `app/`.

| Module | What it holds |
|---|---|
| `proxy` | which requests are let through, what is sent upstream, what is answered |
| `json` | taking `max_completion_tokens` out of request bodies; reading the model list |
| `config`, `cli` | the settings, and what the command line changes in them |
| `app` | the window: what the user does, and what follows from it |
| `foundry` | the jobs that talk to the service: finding it, loading and unloading models |
| `token` | making tokens, and showing them in short |
| `icon` | the picture in the tray |
| `text` | trimming, searching, decimal numbers |

Proof functions named after what they state stand at the end of most modules: for example
that a request without a listed token is never forwarded, that the token of a client is never
sent upstream, or that every job comes to an end.

`serde_json`, `reqwest` and `rand` are called from the library through small functions whose
contracts are taken on trust; the comment above each says what is claimed of the call.
