# mu

A minimal local music player for macOS: tracks are downloaded with yt-dlp,
kept in SQLite, and played through Apple Music by way of `osascript`. Every
command prints one line of JSON.

The rules of the program live in a library verified with Verus (`src/`); the
command line around it (`app/`) runs processes, talks to the database, the
network and the audio device, and prints.

## Layout

- `src/text.rs` — strings as sequences of characters: trimming, searching,
  replacing, splitting, lines, integer parsing and printing.
- `src/music.rs` — the AppleScript of every Apple Music operation, escaping,
  and the readers of the scripts' outputs.
- `src/downloader.rs` — the yt-dlp query, its metadata, and title, artist and
  album read from a video title.
- `src/playlist.rs` — playlist names, and the plans of playlist, favorite and
  play count syncs.
- `src/commands.rs` — subcommands, the import retry rule, import tallies.
- `src/player.rs`, `src/daemon.rs` — the playback daemon's state machine and
  protocol.
- `src/podcast.rs` — feeds, episodes, durations, file names, dates.
- `src/library.rs` — how a track named on the command line is looked up.
- `src/error.rs` — errors, their messages, and the JSON result lines.
- `tests/` — tests of the library.
- `app/` — the `mu` command line.
