# freenet

Verified pieces of a peer-to-peer transport and of a small mail client
built on it, written in Verus.

- `src/bw.rs`: a sliding-window bandwidth tracker for outbound UDP packets.
  It keeps the running total equal to the packets on record, forgets exactly
  the packets that left the window, and answers whether a packet may go out
  or how long it must wait; the wait is proved both sufficient and necessary.
- `src/handshake.rs`: the decisions of the NAT traversal handshake, as a state
  machine that a socket driver steps through.
- `src/stream.rs`: cutting an outbound stream into fragments whose payloads
  reassemble to the stream.
- `src/menu.rs`, `src/message.rs`, `src/inbox.rs`: the mail client's menu,
  messages, inbox and user.
- `app/`: the sockets, channels, async drivers and the user interface, which
  call the library for every decision.
- `tests/`: tests of the library.
