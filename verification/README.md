# lproxy_cv

The device side of a transparent proxy: it authenticates the device with its server,
takes the configuration that the server hands out, sets the system's firewall and DNS up,
and routes connections and DNS queries through tunnels to a relay.

`src/` is the library, verified with Verus:

- `service` — the service's state machine: authentication, configuration checks, access
  reports, upgrades, and the shell commands that set the system up and take it down.
- `config` — the configuration and the server's JSON replies; `htp`, `auth` — the HTTP
  requests and replies.
- `tunnels` — request slots, round trip time windows, and the tunnel manager that hands
  each request to the best tunnel; `xport` — the reverse tunnel; `requests` — the round
  robin over tunnel managers.
- `dns` — DNS tunnels and their frames, the local resolver's memory of pending queries,
  the forwarder that routes each query, and the lookup of one name; `domap` — the domain
  map; `netlink` — ipset packets.
- `acclog`, `cv` — the access log and its protobuf report.
- `lws` — the websocket client handshake.
- `laws` — properties across operations.

`tests/` runs the library on concrete values. `app/` is the program: arguments, lock and
pid files, plain-HTTP exchanges and commands, and the loop that hands their outcomes back
to the service. The program does not start the tunnels, the DNS forwarder or the
transparent proxy: they run on an async websocket and TLS runtime that this build does not
have, so the service never reports its subservices started and keeps authenticating, and
`https` addresses are not reached.
