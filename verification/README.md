# age-plugin-yubikey-agent

A PIN-caching agent for YubiKeys and the age plugin that talks to it.

- Without arguments it is a daemon: it holds a session with the YubiKey, remembers for the
  lifetime of the session that the PIN was verified, and serves ECDH requests over a Unix socket.
- With `--age-plugin=identity-v1` it is an age plugin: it asks the daemon to open `piv-p256`
  stanzas, and the user for the PIN only after a probe found the right YubiKey.
- With a path it converts the age-plugin-yubikey identities in that file.

`src/` is the logic, verified with Verus. `app/` is the program around it: sockets, the card, the
pipe to age, files. `tests/` runs the library.

| Module | What it holds |
| --- | --- |
| `stanza`, `encoding`, `keys`, `crypto` | stanzas, identity stubs, unwrapping of file keys |
| `protocol` | what plugin and daemon say to each other |
| `daemon`, `daemon_laws` | the worker that serves a request, and what holds of its steps |
| `worker_loop` | the loop that serves one request after another, and what holds of every run |
| `plugin`, `attempt`, `batch` | matching stanzas with identities, one attempt, a whole run |
| `convert_identities`, `lines`, `rewrite` | conversion of identity files, and how they are written |
| `cli`, `socket`, `text` | the first argument, the socket, text |

The card, the daemon and the user are outside the library. `Worker`, `WorkerLoop` and `Attempt`
are state machines: a step names what to ask of the outside, and the answer comes back as an event.

Not proved, but stated at each wrapper: what Base64 and Bech32 decoding, P-256 encodings, SHA-256,
HKDF, ChaCha20-Poly1305 and the wiping of memory do.
