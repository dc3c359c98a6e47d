# RustGuard

RustGuard is an eBPF host firewall and connection monitor: an XDP program
drops IPv4 packets from banned addresses, a daemon keeps the ban list on a
Unix socket, and the monitor prints the TCP connections that the connect and
accept probes report.

The user-space logic lives in the `rustguard` library under `src/`, written
in Verus and proved against its contracts. The kernel programs (the XDP
filter and the connect and accept probes) are not built from this crate:
`src/` models what they decide and compute, from the values they read from
the kernel, and the compiled eBPF object is loaded as a separate file.

- `event` — the connection event the probes emit, its labels and its 88-byte
  record in the host's byte order (either order), with the proof that a
  record reads back as the event it was written from.
- `probe` — how the connect and accept probes build an event from what they
  read from the kernel.
- `kernel` — the small computations on helper results (pid and tid halves,
  wrapping time differences, the process-name prefix).
- `firewall` — the XDP program's action for a frame and the drop it counts
  with it, with the
  laws that a ban made through the daemon blocks its address for as long as
  it lasts and that nothing unbanned is dropped.
- `daemon` — commands, requests and answers, message framing, what the
  daemon does with each request, which bans are active, and the laws of a
  ban followed by an unban.
- `target` — ban targets: one address `a.b.c.d` or a block `a.b.c.d/n`,
  and the range of keys a block covers.
- `ipv4`, `address`, `text`, `codec` — dotted-quad parsing and writing, IPv6
  text in its shortest form, decimal and padded text, byte orders.
- `monitor` — the monitor's header and lines, and its cache of executable
  paths.
- `clock` — the daemon's timestamp on the kernel's monotonic clock since
  boot, the clock the XDP program compares ban end times with.

`app/` is the `rustguard` command: argument parsing, the socket, serde, the
clock reading, and the calls into aya that load the compiled eBPF object (from
`/usr/local/lib/rustguard/rustguard.bpf.o`, or the file named by
`RUSTGUARD_EBPF`), attach it and read its maps.

`tests/` runs the library on concrete values, including the monitor output
shown in the project documentation.
