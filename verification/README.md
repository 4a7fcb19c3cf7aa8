# medley_maker

A library for reading songs out of ProPresenter (`.pro`) files and assembling
medleys from them, with its behaviour stated in Verus contracts and proved.

- `src/text.rs` — character-level text operations (white space, words,
  substring search and removal, ASCII lower-casing, decimal notation), each
  against a spec function.
- `src/propresenter.rs` — the song model and `ProPresenterParser`: title
  cleaning, UUID and slide-group extraction, song assembly from file bytes,
  slide previews, and the laws about them.
- `src/medley.rs` — `MedleyBuilder`, `Medley`, and `TemplateManager` with
  its three predefined templates.
- `app/` — the `medley-maker` command line: argument parsing, file reading
  and writing, JSON output through serializable copies of the library types.

Numbers that the file format keeps as floating point (sizes, positions,
opacity, durations) are held in the library as IEEE-754 bit patterns
(`f64::to_bits`); the command line converts them back.
