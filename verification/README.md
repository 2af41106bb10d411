# deskmate

Peer-to-peer file and text transfer on the local network: devices find each
other over mDNS and UDP multicast, authenticate with self-signed certificates
pinned by their BLAKE3 fingerprints, and move files over mutual TLS with
pause, resume and cancellation.

The library in `src/` is written in Verus. Its contracts state what each
function returns; its proof functions state the laws the engine keeps.

- `protocol` — control messages, length-prefixed framing, version checks.
- `identity`, `tls` — device identity, fingerprints, certificate pinning.
- `discovery` — the peer registry, address normalization, UDP packet
  handling, stealth switching, liveness probing and the multicast watchdog.
- `transfer` — path sanitizing, the PIN gate, the table of accepted tasks,
  the receiver's and sender's decisions, resume planning, ignore rules.
- `desktop` — settings, history, the registry of interrupted sends,
  localization, notifications and the other
  rules of the desktop shell.
- `console`, `format` — the command line's texts and byte formatting.

`app/` is the command-line program: sockets, files, the terminal and the
clock around the library.
