# zoosync

Locks and byte queues for processes that share memory, with Python bindings.

- `src/` is the library, verified with Verus. It decides what to do next and is told
  what came of it: which calls set up a (mirrored) shared memory segment, how a
  message is laid out in the circular buffer of a queue, when an operation waits,
  retries or fails, how a lock is acquired and what is reported when its owner died.
- `app/` performs the calls (POSIX shared memory, pthread mutexes and condition
  variables) and offers the Python modules `zoosync_core` and `zooparallel_core`.
  The ring buffer behind a `ZooQueue` is supplied through `install`.
- `tests/` runs the library, partly against real shared memory objects.

A queue's region starts with a header of 416 bytes: 128 each for the mutex and the
condition variables "not empty" and "not full", then the words `read_pos`,
`write_pos`, `capacity` and `init_done`. The rest is the buffer. A message is a
little-endian length of four bytes and its payload. Payloads of 4 GiB and more do not
survive the trip, since the length is recorded modulo 2^32.
