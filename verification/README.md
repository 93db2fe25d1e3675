# runtime_host

The host of local agent runtimes: it finds the runtimes of a machine, asks them for
their models, runs requests on them and hands out what they answer as bounded streams
of events.

`src/` is the library. Everything in it is verified with Verus: the contracts say what
each function returns or changes, over mathematical models of its types, and public
proof functions named `law_…` state what holds of several functions together.

- Texts and encodings: `text`, `scan`, `order`, `textmap`, `decode`, `json`, `sse`,
  `redact`.
- Events, errors and streams: `event`, `error`, `stream`, `deadline`.
- Adapters and recordings: `adapters`, `fixture`, `connector`, `runtimes`, `route`,
  `catalog`.
- The Codex app server: `codex`, `codex_launch`, `rpc`, `wire`.
- The shared Kun runtime: `kun_record`, `kun_resolve`, `kun_catalog`, `kun_frames`,
  `kun_cancel`, `kun_stream`, and `http` and `address` below it.
- Local discovery: `discovery`, `observation`, `passive`, `paths`, `endpoint`,
  `digest`, `package_tree`, `runner`, `manifest`, `tables`, `kun_discovery`.

Calls into `serde_json`, `sha2` and `quick_xml`, and into a few functions of the
standard library, stand behind small wrappers whose contracts are believed; each says
in its comment what it claims.

`app/` performs what the library decides: processes, sockets, files, clocks and the
tables of the operating system. A run is a state machine of the library that says what
to do next; `app/` does it and hands back what came of it.

`tests/` runs the library on concrete values.
