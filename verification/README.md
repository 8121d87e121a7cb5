# merino

A SOCKS5 proxy server whose decisions are verified with Verus.

The library under `src/` holds the protocol: parsing and writing messages,
authentication, the session of a client, relaying datagrams, listening and
configuration. It never touches a socket: a session asks for one action at a
time and is told by an event what came of it. The program under `app/` performs
the actions with tokio, and runs each client as an actix actor or as a task.

- `session.rs` says how a session answers every event, `client.rs` implements
  it, and `run.rs` adds the error reply and the shutdown.
- `wire.rs`, `protocol.rs` and `reply.rs` hold the wire format.
- `laws.rs` and `conversation.rs` prove what holds of sessions as a whole: that
  there is no way around authentication, that every failure is reported once,
  that budgets end negotiations and never relays, and that a client that sends
  its messages in pieces is answered as the parsers say of the whole.

`BIND` and `UDP ASSOCIATE` are answered as not supported unless they are
switched on with `SOCKClient::set_optional_commands`. Time budgets are counted
in nanoseconds.

```bash
# Start a SOCKS5 Proxy server listening on port 1080 without authentication
merino --no-auth

# Use username/password authentication and read users from users.csv
merino --users users.csv
```
