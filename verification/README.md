# autonet

AutoNet finds the IP address that other devices on the local network can
actually reach: not loopback, not a container bridge, not a VPN tunnel unless
asked for, and not the `0.0.0.0` wildcard a server binds to.

## Layout

- `src/` is the library, verified with Verus. It holds the network model
  (`model`, `ip`, `classify`), the selection engine (`select`), snapshot
  diffing (`event`), configuration layering (`config`), the decoders each
  operating system's data passes through (`platform`), and everything the
  command line decides and prints (`cli`): tables, the doctor's checks,
  the watch loop's decisions, port checks, mDNS names and QR output.
- `tests/` runs the library on concrete values.
- `app/` is the command-line program around it: argument parsing, reading
  the configuration file and environment, taking the snapshot, JSON output,
  signals, spawning children and mDNS advertisement.
