# screen_recorder

The core of a screen recorder, verified with Verus.

A recording arrives as a row of chunks and goes straight to disk. While a take runs its data is in
`<name>.webm.part`; a clean finish renames it to `<name>.webm`, an interrupted take ends as
`<name>.partial.webm`. A chunk that cannot be written is rolled back, so a file ends on a chunk
boundary unless the rollback itself fails; a file where it failed keeps the part name. Finished
recordings get their time stamps fixed or are converted to MP4 by ffmpeg, whose log is read for the
progress.

- `src/` is the library. It holds the decisions, each with its contract, and in `src/folder.rs` the
  laws on what the folder of the recordings holds whatever fails.
- `app/` is the desktop application around it: files, processes and the commands of the user
  interface. The quotient of position and total is a floating-point number and is computed here.
- `tests/` runs the library, with a folder in memory.
