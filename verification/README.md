# nira

The playback, discovery and library logic of a desktop music player that
puts SoundCloud, Spotify, a hi-res store and a local music folder into one
library and one queue. Each function states its result as a contract
proved with Verus; what comes from outside (the clock, random draws,
Unicode lowercasing beyond ASCII, URL parsing) is stated as far as the
outside documentation goes and named where it is not written out.

- `src/` is the verified library. Each module holds the rules of one part
  of the player: the queue (`queue`), recommendations (`recommend`,
  `related`, `plans`, `home`, `featured`), discovery (`discovery`,
  `candidates`, `discover`, `bridge`), search (including what a search writes into the search box), likes, playlists, the
  listen-together session (`together`), media controls (`mpris`), Discord
  presence, scrobbling, metadata lookups (`enrichment`), the TTL cache and
  durable-file naming (`cache`, `config`), and the text normalisation they
  share (`text`, `normalize`, `matching`).
- Laws that relate several operations are public proof functions named
  `law_*`, next to the functions they speak of.
- `tests/` runs the library on concrete values.
- `app/` is the command-line shell around it: file persistence, `yt-dlp`,
  environment variables and the JSON shapes of saved data.
