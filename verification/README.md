# codex-for-grok

A loopback bridge that lets Grok Build use a Codex subscription, with its logic
verified by [Verus](https://github.com/verus-lang/verus).

- `src/` is the library: what the bridge decides and computes, with contracts that
  Verus proves.
- `app/` is the program around it: the command line, files, processes, the HTTP
  server and the upstream client. It performs what the library decides.
- `tests/` runs the library on concrete values.

## The library

| Module | What it holds |
|---|---|
| `protocol` | how a request of the client becomes one for the upstream |
| `sse`, `stream`, `relay` | how the upstream's event stream is decoded, rewritten and passed on |
| `flow`, `server`, `headers` | how a request goes from its arrival to the upstream, and what is replied |
| `auth` | the session, its refresh, and the writing of its file |
| `quota` | the conversation with the Codex app server |
| `metrics`, `status` | what is counted, and how it is reported |
| `config`, `clock` | the configuration and the time |
| `ownership`, `setup`, `uninstall`, `roundtrip` | the model blocks in the Grok configuration, and their removal |
| `service`, `manager`, `install` | the user service under launchd and systemd |
| `cli` | the commands and what they print |
| `json`, `codec`, `settings`, `table`, `text`, `bytes`, `path` | the data that the other modules work on |

What depends on the outside world is split into steps. A value such as
`SetupTask`, `Plan`, `WriteStep` or `RequestFlow` names the next step; the program
performs it and hands the outcome back, and the library decides what follows.

## What is trusted

Calls into `serde_json`, `toml`, `sha2`, `base64`, `reqwest::Url` and a few
functions of the standard library stand behind declarations whose contracts are
believed. Each of them has a comment that says what it claims.
