# radio-slate

A small internet-radio player for the Linux desktop, whose logic is written
in Verus and proved against its contracts.

- `src/` — the verified library
  - `domain/`: stations, ids, selections, playback states and errors, and the
    repository traits with a model of what a station list holds
  - `application/`: the playback service (select, play, stop, toggle) and the
    JSON playback snapshot
  - `infrastructure/`: the in-memory and JSON-document station libraries,
    PLS/M3U import and M3U/JSON export, player command lines, MPRIS state and
    metadata, notification texts, output sinks
  - `ui/`: stream-metadata parsing, keyboard shortcuts, the tray's decisions
    and the command line's messages
  - `text.rs`: the character-level string functions the rest is built on
- `app/` — the program around the library: argument parsing, files, SQLite,
  the `mpv`/`ffplay` processes, the GTK tray, the MPRIS D-Bus service and
  desktop notifications
- `tests/` — tests of the library's public interface
