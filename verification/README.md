# caligula

A disk imaging tool: it finds the disks of a machine, writes an image onto
one, reads the disk back to verify it, and reports progress while doing so.
Its processes talk over `stdiomux`, a multiplexer that carries many byte
channels, with flow control, over one pair of pipes.

The decisions of the tool are written in Verus and proved against their
contracts; the I/O around them is ordinary Rust.

## Layout

- `src/` — the verified library.
  - `stdiomux/frame.rs` — the frame format of the multiplexer: header words,
    payloads, encoding and decoding, with round-trip laws.
  - `stdiomux/mux.rs` — the datagram layer below it, with its own round-trip
    law.
  - `stdiomux/channel/state.rs` — one channel's state machine: opening,
    admits (permits to send), data, resets.
  - `stdiomux/mux/state.rs` — the multiplexer's state machine over all
    channels: received frames, local opens, rounds of sends; laws on
    shutdown, resets and the uniqueness of channel ids.
  - `stdiomux/mux/tokio.rs` — which polled frames jump the queue, and how the
    controller closes.
  - `stdiomux/mux/channel/shared.rs` — a bounded queue of byte chunks over a
    `ringbuf` ring buffer.
  - `stdiomux/rpc.rs` — ids of pending requests.
  - `util/device.rs` — what sysfs attributes say of a disk.
  - `util/hyperpipe.rs` — the index arithmetic of a one-writer, many-reader
    byte pipe.
  - `writer_process/` — the writer's progress messages, the state its parent
    tracks, and the decisions of the write and verify passes.
- `tests/` — tests of the library.
- `app/` — the command-line front end and the I/O: sysfs, files, tokio
  tasks, the shared ring buffer of the pipe.
