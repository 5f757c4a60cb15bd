# baston

The server-side core of a FiveM-compatible game server, verified with Verus.

- `src/` is the library: the Mumble voice protocol (framing, varints, OCB2-AES128,
  sessions, channels, routing) as a state machine without I/O, and the engine-neutral half
  of the scripting layer (natives, state bags, key/value store, routing buckets, world
  mirror, deferrals, HTTP bridges, observability, event chains, runtimes' bookkeeping).
  Every function states what it does; laws that span functions are public proof functions.
- `tests/` runs the library.
- `app/` is ordinary Rust around it: sockets and TLS, protobuf messages, files, threads
  and the script engines. It takes the engines' preludes and the table of routed natives
  from its caller.

Numbers with a fraction are held as decimal texts in `src/`; `app/` converts.
