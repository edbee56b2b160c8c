# rustik

A small messaging protocol for sending data between processes, with its
logic verified by Verus.

- `src/common.rs`: correlation and node identifiers, request settings,
  big-endian 16-bit integers and hexadecimal text.
- `src/messaging.rs`: the wire format of the handshake, handshake response,
  frame header, frame and frame response header; the splitting of a message
  into 1016-byte frames; the reassembly of received frames.
- `src/headers.rs`: a compact set of header types with the same layout.
- `src/listener.rs`: what a listening node computes for a connection (the
  answer to a handshake, the outcome of the frames that follow).
- `src/logging.rs`: log items.
- `app/`: sockets, threads, the log printer, files and the demo program.

Every header is proved to read back what it writes, and a message cut into
frames, sent as bytes and received is proved to give back its data.
