# helios

A distributed compile daemon for a local network. Daemons announce their gRPC
port by UDP broadcast, learn each other's addresses, and send compile tasks to
the peer with the fewest jobs in flight. A command line client hands a source
file to the local daemon over a named pipe (Windows).

- `src/` is the verified library (Verus): the peer registry and its dispatch
  steps (`registry`), the announcement format (`discovery`), the command
  channel's messages and the tasks made from them (`ipc`), the worker's
  compile plan, response and ping answer (`service`), the compiler run's
  report (`execution`), the message types (`messages`), and text helpers
  (`text`, `decode`).
- `app/` is the program around it: tokio sockets, the gRPC server and client
  (tonic, prost), the Windows named pipe and Job Object, the file system.
  `helios` runs the daemon; `helios send <compiler> <source file>` is the
  client.
