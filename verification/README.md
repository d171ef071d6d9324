# hibana_mgmt

Management protocol pieces for hibana choreographies, verified with Verus.

- `src/` — the verified library:
  - `wire` — codec error, big-endian / little-endian byte images, in-place
    buffer writes with exact contracts;
  - `payload` — request / reply payloads (`MgmtError`, `LoadBegin`,
    `LoadChunk`, `StatsReply`, ...) with exact decoders, encoders and the
    round-trip / canonicity / trailing-byte laws, plus the mapping of loader
    and host faults to `MgmtError`;
  - `observe_stream` — `TapBatch` (at most fifty tap events) and its codec;
    each event goes through hibana's `TapEvent` codec;
  - `control_kinds` — capability handle layouts of the management controls;
  - `request_reply` — the two session roles.
- `app/` — hibana integration: `WireEncode` / `WirePayload` adapters, wire
  control descriptors, the request/reply and observe-stream choreographies
  with their attach helpers, and conversions from `hibana_epf` errors.
- `tests/` — concrete scenarios for every codec and law.
