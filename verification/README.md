# femboylose

The decision logic of a game-mod launcher, verified with Verus.

`src/` is the verified library:

- `version` – which release tags name a legacy build;
- `release` – GitHub release descriptions and the stable/nightly version lists;
- `checksum` – `SHA256SUMS.txt` tables and SHA-256 digests (through `sha2`);
- `vdf` – Steam library paths read from `libraryfolders.vdf` (through `keyvalues-parser`);
- `steam` – the Steam install path, where the game may be, how Steam is asked to start it;
- `closing` – the state machine that closes a running game;
- `launch` – the state machine that downloads, checks, installs and launches a version;
- `text`, `error` – string helpers and the error type.

`app/` performs what the state machines ask for: HTTP requests (`reqwest`,
`tokio`), the file system, the Windows registry (`winreg`) and process APIs
(`windows-sys`, `sysinfo`).
