# wg_boringtun

The data plane of a WireGuard client, as a verified library with a thin Node-API binding.

- `src/` is the library. Its functions carry contracts that Verus proves.
  - `settings`, `error`, `text`: what a tunnel is asked for, and what is wrong with it.
  - `registry`: the open tunnels by their handles.
  - `summary`, `filter`, `mss`, `checksum`, `bytes`: IP packets.
  - `wireguard`: the protocol engine of the `boringtun` crate, and what is taken to be true of it.
  - `timer`, `clock`: deadlines.
  - `runtime`: a tunnel at work, and the statistics about it.
  - `startup`, `worker`, `crew`, `poll`: the decisions of the start, of the worker threads, of
    stopping them, and about the results of system calls.
- `tests/` runs the library, with the real outside crates.
- `app/` holds the sockets, file descriptors and threads around the library, and the functions that
  JavaScript calls.

A worker is always at a stage, which says what is to be done: wait, read, send or write. The binding
does it, hands back what came of it, and gets the next stage.
