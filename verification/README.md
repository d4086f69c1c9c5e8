# anonet

An orchestration layer on top of Tor, with its logic verified by Verus: a SOCKS5 front end with per-identity circuit isolation, bridge failover, DNS-leak prevention, nftables kill switches, system-wide redirection, and a live dashboard.

`src/` is the library. The program's decisions are made there, by functions with proved contracts; only a typed socket address is read, and the pieces are put together at startup, outside it:

- `socks`, `policy`, `isolation`: the SOCKS5 protocol, the leak policy, and which connections may share a circuit.
- `dns`: the DNS shim's queries and replies.
- `nft`, `killswitch`, `redirect`: firewall rules, what they are written as and what they do to a packet.
- `discovery`, `bridges`, `coordinator`, `monitor`: pluggable transports, bridge lines, health checks and failover.
- `supervisor`, `control`, `full_anon`: the supervised `tor`, its control port, and full anonymization.
- `telemetry`, `dashboard`, `status`: the health state and what is shown of it.
- `cli`, `instance_lock`, `paths`: the command line, the single-instance guard and the files.
- `text`, `net`, `span`: texts, numbers, addresses and spans of time.

`app/` is the program around it: arguments, sockets, processes, files, the Tor client and the terminal. `tests/` runs the library.
