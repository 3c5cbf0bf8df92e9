# fwupdater

Keeps a Vultr firewall group open for the machine you are on: it detects
the machine's public IPv4/IPv6 addresses, plans one firewall rule per
(address family, port) — IPv4 as a single host, IPv6 as a whole network
prefix (a /64 by default) so that rotating host addresses stay covered —
and later finds the rules that an earlier address left behind.

The library in `src/` is written in Verus and verified:

- `text` — decimal/hex rendering, trimming, ASCII case folding, padding.
- `addr` — IPv4/IPv6 addresses as integers: their canonical text forms,
  parsing of every accepted text form, network-prefix masking, and
  (`addr::roundtrip`) proofs that written addresses read back unchanged.
- `vultr` — API records, request builders, and the client's credentials.
- `planner` / `host_planner` — rule planning and stale-rule detection,
  with the laws that tie them together.
- `ip_detect` — what the echo services' replies mean.
- `mobile` — the mobile-facing records, conversions, workflow steps and
  the requests its add and remove calls send.
- `cli` — the command-line tool's decisions (which group, whether and in
  what order requests are sent: dry runs and refusals send nothing, every
  request goes out once, in order, past failures) and printed texts.

`app/` holds the command-line program, the HTTP calls, the serde and
UniFFI copies of the records, and the mobile bindings.
