# sabiden

Call control of a home gateway between a SIP carrier, SIP extensions and browsers,
written in Verus. The library decides; it performs no I/O. Each decision is a function
of what is known and what happened, with a contract that says exactly what is to be done.

## Layout

- `src/` is the library.
  - `text`, `table`, `time`, `ids`: texts, tables keyed by text, spans of time, and the
    numbers that stand for sockets, dialogs and the like.
  - `sip`, `response`, `uri`, `sdp`: messages, the responses that call control makes,
    request URIs, what is read in session descriptions, and the offers for the carrier.
  - `counts`, `browser`: what is counted for the statistics, and what browsers are told.
  - `rate_limiter`: how often an address of record may send an INVITE to the carrier.
  - `fork`, `webrtc_leg`: ringing several extensions at once, browsers among them.
  - `bridge`, `outbound_bridge`: setting up the media of a call.
  - `ngn_inbound`: requests from the carrier.
  - `uas`, `registry`, `relay`, `dtmf`, `send_error`: requests from extensions, and the
    calls that they make.
  - `pwa`: calls that browsers make.
- `tests/` runs the library on concrete values.
- `app/` is the runtime: sockets, tasks and timers. It performs what the library asks
  for, and reports back what came of it.

## Reading the contracts

Each type has a view, and each function states its result and its effect over views. The
spec function that a contract names (`decision`, `bridge_step`, `pwa_step`, ...) stands
in the same module. Properties that span several steps are public proof functions whose
names begin with `law_`.

What is taken on trust is marked `external_body`: readings of the clocks, random tags,
the reading of bytes as UTF-8, and the messages in the chain of an `anyhow::Error`.
