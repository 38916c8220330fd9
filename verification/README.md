# l2portal

A Layer-2 UDP tunnel bridge for Windows: bare Ethernet frames travel as UDP
payload between a physical NIC (server mode, through npcap) or a TAP-Windows6
adapter (client mode) and a remote peer.

The crate is split in two:

- `src/` is the library, verified with Verus. It holds the program's
  decisions: argument validation and the choice of mode, IPv4 and `IP:PORT`
  parsing and printing, prefix masks, interface resolution and the `--list`
  table, the state file format and the residue cleanup it calls for, the
  command lines given to `tapctl`, `netsh` and `route`, the reading of their
  output, the order of the client's startup, route updates and cleanup, what a
  `switch` command does, the reaction to socket errors, and the log line
  format. Whether an address is a valid IPv6 socket address is decided by std
  in `app/` and handed to the library as a flag.
- `app/` is the program around it: argument parsing with clap, logging,
  packet capture and injection, the TAP device, sockets, processes, files and
  the Windows API calls. It hands plain values to the library and carries out
  the steps the library lays out, in the library's order.

Tests of the library live in `tests/`.
