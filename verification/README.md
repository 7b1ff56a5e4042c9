# AnNa Sync

AnNa Sync keeps files on the devices of their owners and exchanges them between peers. A
server relays signals, keeps track of who holds which chunk, and stores files that are backed
up on purpose.

`src/` is the library: the decisions of the server and of the desktop client as functions on
plain values, verified with Verus. It does no input or output. Where it calls another crate
(BLAKE3, FastCDC, DashMap, Brotli, JSON Web Tokens, UUIDs, PEM files, certificates, media
types), the call stands in a small function whose contract is trusted and whose comment says
what is claimed of it.

| Module | What it settles |
|---|---|
| `cdc`, `hashing` | chunks of a file and their hashes |
| `bitfield`, `tracker`, `schedule` | who holds which chunk, and which chunks to fetch first |
| `signaling` | peers, rooms and messages |
| `upload`, `serve`, `storage` | taking files in, handing them out, where they lie |
| `sql`, `database` | the tables, the statements on them, the records in them |
| `auth`, `groups`, `labels`, `folders` | users and what they may do |
| `status`, `quic`, `config`, `files`, `ids`, `text` | reports, the QUIC listener, settings, shared types |
| `client` | the files on a device, backing up, restoring, serving other devices |

Properties that hold across functions are public proof functions whose names begin with
`law_`.

`app/` is the program around the library: the HTTP, WebSocket and QUIC server (run it without
arguments) and the commands of a device (`device <directory> <command>`). `tests/` runs the
library with the real crates and a real database.
