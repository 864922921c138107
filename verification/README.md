# priest

An engine for conversations with language models, with its logic verified by Verus.

- `src/` is the library. Every function in it has a contract that Verus proves: how the messages of a
  request are put together out of profile, memory, context and session; how requests are written for
  and answers are read from Anthropic, Ollama, OpenAI-compatible servers and OpenAI Responses; how
  streams become structured events; how sessions are compacted and stored; and how a request, a
  compaction and a tool loop go from one step to the next. `engine/laws.rs` states what holds of every
  request; other laws stand in the modules that they are about.
- `app/` is the code around the library: HTTP, files, SQLite, and the traits that callers implement.
  It performs the actions that the library decides on and hands back what came of them.
- `tests/` runs the library.

What Verus takes on trust are the calls into `serde_json`, `chrono`, `uuid` and a few functions of the
standard library. They stand in `json.rs`, `clock.rs` and `text.rs`, each with a note on what is
claimed of it.
