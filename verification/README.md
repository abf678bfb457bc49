# piece_cache

A server that keeps pieces of an archived history on disk and hands them out to other nodes of the
network.

- `src/` is the verified library. It decides what to do with files, with the network and with the
  node, one action at a time, and never touches any of them itself.
  - `primitives`, `text`, `paths`, `checksum`: pieces, their numbers, their files and checksums.
  - `disk`: the actions on files and a model of the disk that they act on.
  - `save`, `read`, `load`, `cache`: the operations of the cache.
  - `recovery`, `durability`: what holds across those operations.
  - `download`, `sync`: where pieces come from, and which ones are asked for.
  - `handlers`, `network`, `keys`: what other nodes are answered, and how the server is known.
  - `rpc`, `server`, `commands`: the node, the start of the server, the command lines.
- `app/` performs the actions: files, HTTP, the connection to the node, the tasks that run side by
  side. The network itself comes in through the traits in `app/network.rs`.
- `tests/` runs the library, with files in memory.
