# cue-shell

A command shell around a background daemon: jobs and crons are written in one
small language, run by the daemon, and shown in a terminal front end.

The library under `src/` is written in Verus: each function states what it
returns or changes, and is proved to do so.

| Module | What it holds |
| --- | --- |
| `parser` | tokens, grammar and resolution of input into commands |
| `command_spec`, `command`, `mode`, `pipeline`, `cron`, `duration`, `job` | the vocabulary of commands |
| `resource` | resource needs, providers and the registry that reserves all or nothing |
| `storage` | schema migrations, rows, and what is kept of the history |
| `ring_buffer`, `runtime_env`, `word_expansion` | output, environment and words of a job |
| `service`, `upgrade`, `replacement` | the daemon as a service, and its self-update |
| `tui` | the front end: its state, how messages change it, and what is shown |
| `text`, `textmap`, `json`, `order`, `paths` | strings, maps, lists as JSON, sorting and paths |

Functions whose names begin with `lemma_` and that are public state laws that
hold across functions.

`app/` holds what talks to the system: processes, files, the database and the
terminal. `tests/` runs the library.
