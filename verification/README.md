# rustybmp

Verified decoding and route-processing logic for a BGP Monitoring Protocol
(BMP, RFC 7854) collector, written in Verus.

Layout:

- `src/` — the verified library:
  - `wire`, `text`, `net`, `cidr`, `error`: byte readers and writers,
    decimal/hex/IP text, networks, errors.
  - `calendar`: UTC calendar dates of Unix timestamps and their text.
  - `bgp`: BGP-4 messages and attributes, NLRI of every supported family
    (unicast, labeled, VPN, EVPN, MCAST-VPN, flowspec, SR policy, RTC,
    BGP-LS), capabilities and OPEN.
  - `bmp`: BMP messages, per-peer headers and the path-status TLV.
  - `rib`: per-peer route tables with best-path selection, the session
    manager that turns BMP messages into RIB events, the route-filter chain
    and its expression language.
  - `enrichment`: RPKI origin validation (VRP cache and the RTR session state
    machine), ASPA path validation, BGPsec signature checks, the credential
    vault, inventory record types.
  - `mrt`: MRT export (BGP4MP and TABLE_DUMP_V2) and reading it back.
  - `kafka`: topic names and the topic/key each RIB event is published under.
  - `collector_protocol`: length-prefixed framing between edge collectors and
    the core.
- `tests/` — tests of the library on concrete values.
- `app/` — what runs around the library: files, environment, clock, sockets,
  channels, YAML/JSON/MessagePack formats.
