# pumpkin (verified core)

Verified logic of the Pumpkin Minecraft server, written in Verus.

- `src/` — the library, proved by Verus:
  - `data_result`, `codec`, `map_codec`, `codecs/either`, `map_codecs/either`:
    decoding results and the left-first "either" codec combinators;
  - `login`: the Bedrock login packet layout, as a function on bytes;
  - `block_pos`, `giant_trunk`: placement of a giant (2x2) tree trunk;
  - `entity_argument`: the checks of the entity command argument;
  - `entity`: the ender dragon entity;
  - `dragon_fight`: the decisions of the End dragon fight (timers, state
    scan, boss bar recipients, exit portal, dragon egg);
  - `world_host`: translation of plugin block update flags.
- `tests/` — tests on concrete values.
- `app/` — the asynchronous world work of the dragon fight and stream
  reading, around the library.
