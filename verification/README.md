# fediplace

A shared pixel canvas that takes its placements from the fediverse: a note sent to the
`@system` actor's inbox reads as `word x y colour`, and the pixel at (x, y) takes that colour.

`src/` is the library, verified with Verus:

- `text` — Unicode whitespace and the words of a text (what `split_whitespace` yields).
- `number` — unsigned decimal numbers: reading them (as `str::parse` does) and writing them.
- `placement` — reading a placement from a note, the stored pixel row and its id, the reply
  that the inbox sends, and the laws that tie them together.
- `activity` — actors and activities; the system actor, whose addresses go through the
  `url` crate's parser.
- `canvas` — the canvas held in memory.
- `context`, `todo` — what the task pages show after each database step.

`app/` is the web server (Rocket, Diesel, reqwest) around the library.
