# aura

The verified core of Aura, a browser built around a hot-swappable Servo
engine, per-domain cookie silos, an adblocking network interceptor and a
local summarising model.

`src/` is checked by Verus:

- `text`: whitespace, trimming, `lines`, joining and substring replacement,
  each stated over `Seq<char>`.
- `summary`: the readable text of a page, the summary prompt, greedy
  decoding bounded to 180 tokens, and the bullets read back from the answer.
- `crypto`: SHA-256, hex, AES-256-GCM, HKDF and randomness, behind contracts.
- `silo`: silo file names, the master key, per-silo keys, sealed and
  opened cookie values, purging.
- `weburl`, `net`: URLs, filter lists, and the interceptor's decision
  (block what the filters match, upgrade the rest to HTTPS, allow what
  remains).
- `shell`, `tabs`: address-bar resolution, navigation outcomes, the tab
  constellation, overlays and errors.
- `engine`, `hot_swap`: the engine's page state and snapshot, the raw codes
  of its C interface, and the slot of the serving engine.

`app/` holds the Tauri and Slint shell, the SQLite and keychain access, the
network fetches, the candle model and the engine's C interface over Servo.
