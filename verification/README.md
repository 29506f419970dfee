# chrome-devtools

A broker that lets several agents share one Chrome profile through a single
`chrome-devtools-mcp` server. Each client works in a session of its own: the session has its
own tab, the elements of its snapshots are handed out as tokens that only this session can
use, and what the daemon does on a page it does on the session's own tab or not at all.

The rules of the broker are a library, `src/`, whose contracts are proved by Verus. The
program around it, `app/`, reads and writes sockets, pipes and files, starts processes and
waits; it asks the library what to do with what it has read.

## The library

| Modules | What they hold |
|---------|----------------|
| `text`, `table`, `json` | Texts, tables and JSON values, and the boundary to `serde_json` |
| `rpc`, `mcp` | JSON-RPC messages, and the exchange of lines with the MCP server |
| `session`, `uids`, `pages` | Sessions, their tokens, and the pages that responses tell of |
| `router`, `queue`, `diagnostics` | What becomes of a request, one request after the other, and how long it took |
| `native`, `cdp`, `input`, `wire` | The daemon's own tools, the DevTools protocol, and the boundary to `base64` |
| `control`, `daemon` | Control commands, a client's connection, and the daemon's files |
| `client`, `batch`, `cli`, `help` | The command line, its scripts, and what it shows |
| `config`, `lock`, `chrome`, `timing` | Profiles, locks, the browser, and settings |

A function's contract is stated over the view of its arguments: texts are sequences of
characters, JSON objects are maps, a registry of sessions is a map from ids to sessions, and
times are numbers of nanoseconds. What a loop of the program does between two reads is a
function from a state and an event to the next state and an action.

What holds across calls stands as public proof functions: in `session_laws`, `router_laws`
and `client_laws`, and at the end of the other modules. Among them: a token of another
session or of an earlier snapshot never reaches the server; binding is exclusive; the last
tab is kept; a session is only ever connected to its own tab; every request is answered
once; late responses are dropped; what is written to a file or a frame is read back.

## What is believed without proof

The functions and types marked `external_body` in `json`, `input` and `mcp`, and
`String::push` in `text`: reading and writing JSON with `serde_json`, decoding with `base64`,
and two functions of the standard library. Each has a doc comment that names the function and says what is claimed of it.
