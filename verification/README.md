# vs-queue

Tracks the queue of a game server from a log file with lines such as

```text
6.4.2026 17:07:03 [Client Notification] Client is in connect queue at position: 90
```

and estimates when the queue will reach zero.

- `src/` is the library, verified with Verus: reading and writing such lines, keeping the samples of
  a session in order, picking the samples of an estimate, putting all of it into words, and deciding
  what the tracker does next.
- `app/` is the program: command line, files, processes, the screen, and the estimate and the
  projection themselves, which are computed in floating point. Under the name `mock_queue` (a link
  or a copy of it) the program writes the log of a queue that moves at random, so that
  `vs-queue ./mock_queue -- 90 --interval-ms 500` tries the tracker.
- `tests/` runs the library.

`chrono` and `regex` are called from the library through functions whose names start with `chrono_`
and `regex_`; their doc comments say what is taken for granted of each call.
