# attacca

The state, the reducers and the layout of a terminal chat client, verified with
[Verus](https://github.com/verus-lang/verus), and the program around them.

The client runs as a node: one websocket to the server, over which it follows sessions, sends
messages and reads back what a turn produces, token by token. Everything it *decides* is in the
library under `src/`, where each function carries a contract that pins its result down. The library
does no I/O. The program under `app/` owns the terminal, the connection, the credential and the
files; it performs what the library asks for and hands the outcome back.

## Layout

| Modules | What they hold |
|---|---|
| `text`, `bytes`, `util` | strings as sequences of characters, and byte offsets into them |
| `json` | JSON values, read and written by `serde_json` |
| `wire`, `brief`, `refs` | what travels on the connection, the note about this machine, references to projects and agents |
| `chat` | the transcript and the reducer of turn frames |
| `app`, `handler`, `event` | the application state, keys and mouse, background events, the action queue and the main loop |
| `bg`, `zyris_client`, `auth` | requests, session streams, connections and enrollment, as machines that are fed outcomes |
| `api`, `transport`, `tools` | the HTTP API's addresses and replies, and tool blocks |
| `screen`, `palette`, `wrap`, `chat_view`, `input_view`, `ui`, `classic` | which widgets go where |
| `*_laws` | what holds across functions, as public proof functions |

## What is taken on trust

The wrappers marked `external_body`, each with its claim in a doc comment: `serde_json` in `json`,
`ratatui`'s layout in `screen`, `unicode-width` in `wrap`, and `String::push` in `text`.

## Running

```bash
attacca                 # chat
attacca whoami          # who the account key of the HTTP API belongs to
attacca tool '<json>'   # run a tool block, asking first unless it is safe
```

The environment configures it: `ZYRIS_SERVER_URL`, `ZYRIS_NODE_TOKEN`, `ZYRIS_NODE_TOKEN_FILE`,
`ZYRIS_NODE_NAME`, `ZYRIS_SCOPES`, `ZYRIS_PROFILE`, `ZYRIS_CONFIG_DIR`, `ATTACCA_AGENT`,
`ATTACCA_PROJECT`, `ATTACCA_FILE_ROOT`, `ATTACCA_NO_TERMINAL`, `ATTACCA_DEBUG_EVENTS` and
`ATTACCA_HIDE_REASONING`.
