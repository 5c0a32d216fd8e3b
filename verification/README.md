# LilyPond Studio

A desktop LilyPond scratchpad with a local score library. The library in `src/` is
verified with Verus; `app/` holds the window, the SQLite store and the LilyPond process.

- `src/scores.rs` — score records, the `ScoreStore` interface, the `ScoreManager` that keeps
  one score selected through create, rename, edit and delete, untitled numbering, and the
  choice of the database location.
- `src/studio.rs` — the studio's screens, documents, render jobs, preview pages and status texts.
- `src/render.rs` — job directory names, the merged LilyPond log, and reading page sizes out
  of the SVG opening tag.
- `src/text.rs` — decimal numerals, `u32` parsing, prefixes, search, trimming and
  whitespace fields over characters.
- `src/tutorial.rs` — the built-in lessons.
- `app/` — `main`, the GPUI window, `SqliteScoreStore`, and the `lilypond` invocation.

LilyPond must be on `PATH` to render.
