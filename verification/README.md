# netdisco

Network device discovery and management (SNMP, ARP, forwarding tables),
with its core written in Verus and proved against its contracts.

## Layout

- `src/` — the verified library
  - `snmp/` — BER primitives (`ber`), message building (`message`), response
    parsing (`response`), the client description, walk state machine and
    table decoding (`client`), standard OIDs (`oids`), and the codec laws
    (`laws`: decode inverts encode, the parser reads back what the builder
    writes)
  - `util/` — MAC and uptime formatting, text helpers, IP addresses and
    networks, device ACLs
  - `config/` — the settings tree, defaults, and the deployment/environment
    override rules
  - `models/` — devices, ports, nodes, users, the job queue
  - `backend/` — worker count, job planning and completion, the schedule
    (default times and cron specifications from the configuration)
  - `web/` — access rules, node search classification, neighbour listing,
    login decisions
- `tests/` — tests of the library on concrete values
- `app/` — the programs around it: the web server, the backend daemon, the
  command-line tool and the deployment tool, the database queries, UDP
  transport for SNMP, and configuration file loading
