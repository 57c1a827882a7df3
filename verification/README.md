# movie_night

A movie-night chat bot. It watches a chat for `!request` commands, keeps one
movie request per chatter, builds rating polls for dinkdonk.mov, and drives
OBS Studio, Prowlarr and qBittorrent.

- `src/` is the bot's logic, with its contracts and proofs, checked by Verus:
  - `chat.rs`: reading chat frames, recognising requests, the book of one
    request per chatter (`DGG`), and the saturating option count `exp_sat`;
  - `dinkdonk.rs`: movies, TMDb search parameters, poll forms and answers;
  - `obs.rs`, `prowlarr.rs`: the OBS launch arguments and the Prowlarr
    search address;
  - `text.rs`, `json.rs`: character-level helpers, and what is asked of
    `serde_json`.
- `app/` is the network side (websockets, HTTP, processes) that performs what
  the library decides.
- `tests/` runs the library on concrete values.
