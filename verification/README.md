# realms_core

The rules of the realm servers (the auth role and the channel role of a
game server), written in Verus and proved against their contracts.

- `src/` is the verified library. Each module holds one part of the rules:
  wire encoders (`auth`, `wire`, `chat`, `movement`, `gm`), login and
  character-select rules (`login`, `auth`, `entry`), inventory and refine
  rules (`item`, `items`, `belt`, `materials`, `refine`, `dragon_soul`), world events
  (`events`), the social features (`chat`, `emotions`, `messenger`, `guild`),
  small request parsers (`land`, `locale`, `command`), the bench capture
  harness (`capture`) and the per-process registries (active logins, login
  keys, chat peers, emotion consents, friend requests).
- `tests/` runs the library on concrete values.
- `app/` is the plain Rust around it: the process-wide statics that hold the
  registries, the guards that release a login or a chat registration when a
  connection ends, and the files of the bench capture.
