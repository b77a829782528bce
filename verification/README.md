# second-opinion

A command-line client and a local WebSocket relay that pass questions from an
agent to a browser extension and the extension's answers back.

- `src/` is the verified library:
  - `decimal`: trimming, reading and writing the numbers kept in the state files;
  - `protocol`: the JSON messages, read through serde_json and written with
    their members in key order;
  - `server`: the relay's routing state machine and its laws;
  - `client`: port selection, state-file paths, question replies, the status
    document and exit statuses;
  - `commands`: the `start`, `stop` and `status` commands as state machines.
- `app/` is the program: arguments, files, processes, sockets and the async
  runtime, which carry out what the library decides.
- `tests/` runs the library on concrete cases.
