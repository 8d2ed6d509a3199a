# securechat

An end-to-end encrypted terminal chat. Clients connect to a relay server,
authenticate with an OpenID Connect access token, agree on a per-peer
AES-256-GCM key with an ephemeral X25519 exchange (HKDF-SHA256, info
`aes-key`), and send each other sealed messages that the server only relays.

- `src/` is the verified library: key handling and message encryption
  (`crypto`), the client's per-peer state machine (`client`), the server's
  relay decisions (`server`, `participant`), token checks (`jwt`), the OAuth
  redirect parser (`openid`), terminal rendering (`output`, `ansi`), input
  editing and command routing (`util`, `console`), and the protocol messages
  (`message`).
- `app/` is the program around it: sockets, threads, the terminal, HTTP, and
  the JSON form of messages.
- `tests/` exercises the library with the real cryptographic crates.
