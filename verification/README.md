# tensorlake_sandbox

A backend that runs commands in sandboxes of the Tensorlake platform.

The library in `src/` is written and proved in Verus. It decides: which sandbox
a request gets, what each answer of the platform calls for, when a command may
be sent again, what the events of a running command mean. It never waits and
never touches the network; every step names the request to send, and the answer
comes back as an argument.

| module | what it is about |
| --- | --- |
| `sandbox` | requests, commands and their results |
| `api`, `http` | messages of the platform, requests and answers |
| `backend` | configuration; acquiring, restoring and terminating a sandbox |
| `naming`, `path` | names of sandboxes that can be resumed |
| `lifecycle` | bringing a sandbox up |
| `handle` | a sandbox in use; retrying a command |
| `run` | running a command to its end |
| `process` | processes with bridged input and output |
| `sse` | reading event streams |
| `error`, `text` | failures and their messages, text building blocks |

The modules whose names end in `_laws` hold what is proved of several functions
together.

`app/` drives the library with `reqwest` and `tokio`, and turns its types into
JSON and back. `tests/` drives it with a platform that answers from a table.
