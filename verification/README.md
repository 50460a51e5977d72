# spadina

The decision-making core of the Spadina virtual-world system, written in
Verus: every function in `src/` carries a contract that Verus proves.

- `src/controller/puzzle/state_machine/`: state-machine puzzles. Expressions,
  holidays, transitions and timers; processing player input, internal events
  and timers (`processing.rs` holds the model the code is proved against);
  starting, restoring and validating puzzles (`lifecycle.rs`, `validation.rs`).
- `src/asset/`: asset headers and licences, the puzzle piece operations and
  the propagation rules that move values between pieces.
- `src/access.rs`: access settings, time-limited access rules and their laws.
- `src/player.rs`: players, named by their server.
- `src/asset_store/`: where a file-system store keeps each asset.
- `src/client/`: the game client's bookkeeping: accounts, altitude mixing,
  clock-offset samples, direct messages still to fetch, realm lists, what
  the client does with each response from its server (`session.rs`), what
  its server connection caches and waits on (`server.rs`), the operations
  and screens its connection decides on (`state.rs`), and where a player
  can walk on a realm's platforms (`paths.rs`).
- `src/asset/compression.rs`: the Zstandard layer of asset data, through
  small trusted wrappers around `zstd`.
- `src/time.rs`, `src/digest.rs`: instants and calendar days, digests and
  their text, delegated to `chrono`, `chrono-tz`, `sha3` and `hex` through
  small trusted wrappers whose contracts name what those crates compute.

`app/` holds what Verus does not check: serialised forms of the library's
values (serde), MessagePack encoding of asset data, reading and
writing asset files, and the floating-point blend of altitude mixes. The
library itself reads the system clock, through small trusted wrappers
around `std::time::SystemTime`. `tests/` exercises the library
with the outside crates linked.
