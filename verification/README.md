# daiana

A room-based binary WebSocket relay. Clients join rooms identified by UUIDs and exchange
binary packets by unicast, multicast or broadcast; the server stamps every relayed message
with the sender's identity and tells each room when clients join and leave.

## Layout

- `src/` — the library, verified with Verus:
  - `packet/` — the wire protocol (client packets in `input`, server packets in `out`,
    shared byte helpers in `wire`), with proofs that decoding inverts encoding, and the
    delivery decisions (`helper`): who a broadcast, multicast or sync reaches, and what a
    disconnection changes.
  - `channel/` — rooms, their clients, and the room registry with its rules: the room
    capacity, joining, leaving, and the removal of rooms left empty for too long.
  - `service/room` — what becomes of each packet a client sends: the rate window, the
    size limit, and the routing.
  - `config/cors` — the CORS settings read from the environment's values and the
    middleware steps they call for.
  - `util/` — errors and their HTTP status codes, number and text parsing, the clock, and
    log formatting and logger installation.
- `app/` — the server: Actix endpoints, WebSocket sessions, sending, environment reading,
  and the floating-point token bucket.
- `tests/` — tests of the library.
