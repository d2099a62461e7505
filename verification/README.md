# cli_drivers

Drivers for language models that are reached through a local command-line tool: Codex
and Gemini. Each driver turns a completion request into a command, watches the process
that runs it, and reads the JSON lines it prints back into a response or a stream of
events.

- `src/` is the library, verified with Verus: the prompt, the arguments, the filtered
  environment, the reading of the output, the wording of failures, and two state machines
  that say what to do with the process (`run`). Its contracts speak of texts as sequences
  of characters and of JSON values as trees of such.
- `app/` starts the processes, moves bytes and waits, as the state machines ask.
- `tests/` runs the library on concrete values.

Calls into `serde_json`, `regex-lite`, `dashmap` and the standard library whose results
are taken on trust stand in `json`, `pattern`, `pids` and `text`, each with a comment that
says what is claimed of it.
