# quic_application

A remote-desktop session over one QUIC connection: what a message is and how it travels, which video
frames may be sent and shown, when a fresh keyframe is asked for, and how much may wait in the datagram
send queue. The decisions are verified with Verus; sockets, connections and tasks are not.

## Layout

- `src/` is the verified library.
  - `keyboard` checks keyboard input, `udp` plans UDP sockets.
  - `transport/application` holds the session: `classify` and `channels` say how messages travel, `stream`
    takes them, `reader` and `video_writer` are the steps of the readers and of the video writer,
    `receive_recovery`, `barrier`, `holdback` and `delivery` decide what is shown, `send_recovery`, `slots`
    and `ordering` decide what is sent.
  - `transport/datagram` numbers datagrams, admits video frames and measures their sizes.
  - `numbers`, `ordered`, `outbox`, `text` and `time` are what the rest is built on. `outbox`, `time` and `udp`
    declare what is believed of `bytes`, `tokio` and the standard library.
- `app/` runs the library on real connections. The wire formats, the message schema, authentication and the
  framed reliable channels come from elsewhere, through the traits in `app/parts.rs`.
- `tests/` runs the library.
