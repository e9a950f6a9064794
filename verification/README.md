# tamagotchi_battle

A tamagotchi battle contract for the Gear runtime, with its game logic proved
correct in Verus.

Tamagotchis register with the contract while registration is open; the admin
then starts a round, in which the waiting tamagotchis are paired off at
random. Each fight goes in rounds of two moves (attack or defence); a missed
move costs a random penalty, and a fight ends when one side's health reaches
zero or after five rounds. Winners wait for the next round until one is left.

## Layout

- `src/` — the verified library:
  - `ids.rs`: 32-byte identifiers;
  - `actor_map.rs`: a map keyed by actor id, each key stored once;
  - `types.rs`: players, fights, events, the messages a step sends, refusals;
  - `random.rs`: values drawn from the runtime's random source (index, penalty,
    power) and the seed that tells successive draws apart;
  - `combat.rs`: how a round is fought;
  - `battle.rs`: the contract's state, its invariant, registration and admin;
  - `pairing.rs`: pairing off the waiting tamagotchis;
  - `moves.rs`: moves, missed moves and the end of a round;
  - `runtime.rs`: the steps that draw their own random values;
  - `queries.rs`: the read-only state queries.
- `tests/` — tests of the library on concrete values.
- `app/` — the contract's entry points on `gstd`: decoding messages, reading
  the message context, reserving gas, asking a tamagotchi for its owner, and
  sending the messages that each step asks for.

Every step takes the state and the message context and returns either a
refusal, leaving the state as it was, or the new state and the messages to
send; the messages that schedule move checks report back the id under which
they were sent.
