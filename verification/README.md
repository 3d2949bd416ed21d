# prismattyc_mux

The control plane of the Prismattyc terminal multiplexer, verified with Verus.

`src/` is the library. It holds the topology (sessions, windows, panes and the
controller leases on panes), the bounded history of numbered events, what is
remembered of clients and panes, the mail doorbell with its gates and retries, and
the rules of the protocol: which requests a connection may make, how a frame is
read and written, where the socket is, and how a start is undone.

The library does no I/O. A handler that needs the host first returns an `Ask`, and
is called again with the answer. What the request is for happens once all answers
are in; before that, a write to a pane may note that the host typed last, or forget
old output of the pane. Work that needs no answer is queued as an `Effect`.

| Modules | What they decide |
| --- | --- |
| `plane`, `state`, `step`, `setup` | the state, how it starts, what a handler hands back |
| `topology`, `place`, `panes`, `moves`, `sessions`, `teardown`, `labels` | sessions, windows and panes |
| `leases`, `sizes`, `writes`, `pane_write`, `ledger`, `style` | clients, window sizes, input and reads |
| `attention`, `doorbell`, `mailbox`, `roster`, `alias`, `hive` | attention and mail |
| `event`, `snapshot`, `subscribe`, `persist` | history, snapshots, streams, checkpoints |
| `request`, `response`, `wire`, `error`, `dispatch` | the protocol and where each request goes |
| `conn`, `frame`, `server`, `discovery` | connections, frames, sockets |
| `laws` | what holds of every request |
| `text`, `paths`, `order`, `idmap`, `model` | texts, paths, ordered lists, maps and their models |

`app/` is ordinary Rust around it: the threaded socket server, the JSON wire
format, and the loop that carries out what the plane asks for, over a `Host` that
the rest of the multiplexer implements.

`tests/` drives the plane with a host that keeps everything in memory.
