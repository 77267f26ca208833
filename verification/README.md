# landscape (verified core)

The logic of the Landscape router, written in Verus: every function in
`src/` carries a contract that Verus proves, and the properties that span
several functions stand as `law_*` proof functions beside them.

- `src/` — the library. DHCPv4/DHCPv6 address pools and message handling,
  DHCPv6 messages on the wire, DUIDs and delegated prefixes, IPv6 prefix planning and router
  advertisements, Ethernet/IPv4/UDP/ICMP frames and ICMPv6 options, the
  connection-metric engine (per-flow state, interface sums and buckets,
  the persistence loop's decisions, retention cleanup) and the SQL text of
  its stores, DDNS job state, DNS redirect batches, firewall rule sets, the
  PPPD supervisor and small service records.
- `tests/` — tests on concrete values, run against the compiled library.
- `app/` — what Verus does not see: sockets, files, processes, route
  commands, JSON forms of the status records, and the loops that feed the
  library's decisions with events and carry out its actions.

Outside crates are reached only through trusted wrappers (the clock,
`String::push`/`pop`, `cidr`'s IPv4 arithmetic, and `dhcproto`'s DHCPv6
decoding and option encoding). Each wrapper's doc comment names the call
it makes; its contract says what is claimed of that call, either exactly
or through a named result that depends only on the arguments. The clock
wrappers claim nothing about the time they return.
