# zmq_patterns

Verified message formats, parsers and decisions for a set of ZeroMQ
programs: a request/reply client, a weather publish/subscribe pair, push/pull
status clients and server, a dealer/router echo service, and a peer-to-peer
chat that finds its name server by beacon.

- `src/` is the Verus library. `text` (splitting as `str::split` does) and
  `decimal` (integer text as `{}` prints it and `parse` reads it) carry the
  general parts; `weather`, `status`, `dealer`, `reqrep` and `chat` hold each
  program's wire texts, parsers and decisions, with the proofs that a reader
  gets back what a writer sent; `rng` draws from `rand`.
- `app/` runs the programs: sockets, threads, sleeps and printing. Its first
  argument names the program.
- `tests/` runs the library on concrete values.
