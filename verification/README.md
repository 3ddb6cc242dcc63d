# orbit_protocol

The protocol core of Orbit, a terminal session server that keeps a terminal
session alive while its clients come and go, written in Verus and verified.

- `frame`, `frame_spec`, `frame_codec`: ORBF presentation frames, their byte
  format and the frame reducer; `frame_laws` and `frame_round_trip` prove that
  decoding and encoding are inverse and that sizes are computed exactly, and
  `frame_truncation` that every strict prefix of a frame decodes as truncated.
- `session`: the ORBS local-session messages between a client and Orbit, with
  their codec and round-trip laws.
- `management`: the ORBM management messages and ORBR lifecycle records, and
  the decisions of the management endpoint's owner.
- `attachment` and `output_queue`: one client's negotiation state and its
  bounded output, where stale frames, previews and metadata are replaced.
- `launch`: the `--management-v1` and `--ansi-palette-v1` options.
- `runtime`: revisions, the bounded PTY write queue, related rules and what
  ending a session does.
- `interaction`: which handler a client message goes to, how a selection
  action is routed, when a selection may autoscroll, when encoded input fits
  the PTY queue and when typing returns the viewport to the live screen.
- `governance`: checks of the contract and crate decision tables and of the
  contract references in them and in the issue log.
- `error_text`, `text`, `wire`: error texts, text building and byte encoding.

`app/` is the `orbit` program around the library: the diagnostic client, the
governance check and argument handling. Serving a session needs the
libghostty terminal runtime, which this program does not contain.
