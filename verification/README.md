# codex-lomor

Support for the Lomor local inference server (`lomord`), written in Verus.

- `src/` is the verified library: the start-up decisions (health probe
  judgement, binary search order, the probe → locate → start → poll state
  machine with its deadline), the Unix-socket client's event handling, and a
  server-sent-events type extractor. Each public function has a contract, and
  the laws of the start-up sequence and of event collection are proved as
  proof functions.
- `app/` performs the I/O around it: HTTP probes with `reqwest`, the `PATH`
  lookup with `which`, spawning `lomord start`, sleeping with `tokio`, and the
  socket transport.
- `tests/` exercises the library on concrete values.
