# signal_frame

The wire kernel for typed inter-component communication, written in Verus.

Every frame carries an eight-byte short header that packs a contract
identity, a wire revision and a contract-local route; bound frames derive
that header from the contract they belong to, and bound decoders refuse
unbound, wrong-contract and wrong-revision headers before the archived
body is looked at. Around the archive, frames are length-prefixed with a
big-endian `u32`.

## Layout

- `src/` is the verified library: contract binding and routes
  (`binding`), the short header and byte framing (`frame`), exchange and
  stream identity (`exchange`, `subscription`, `identity`), requests and
  replies (`request`, `reply`, `non_empty`), protocol versions (`version`),
  caller context (`caller`), namespace sections (`namespace`), the
  thin-client decisions (`command_line`), the channel declaration model,
  its checks and the stream witnesses and payload heads its generated code
  decides (`channel`), its text form (`channel_syntax`), the names derived
  for generated code (`naming`), the operation-dispatch ingress
  (`operation_dispatch`), and the observer subscriptions of observable
  channels with their default filter (`observer`, `observable`).
- `tests/` exercises the library from outside.
- `app/` is the runtime around it: rkyv archives of frame bodies, error
  descriptions, reading the process environment, and the socket exchange
  of a thin client.
