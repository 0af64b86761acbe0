# wowasticker

An offline behavioural sticker chart for one student: each schedule block of
a school day earns 0, 1 or 2 stickers, toward a daily goal.

- `src/` is the library, verified with Verus: the sticker store and the laws
  it keeps (`db`, `db_laws`), the keyword scoring of dictated observations
  (`ai`), saving and undoing a dictated observation (`observation`), the
  daily report for parents (`report`), the chart's date, status, navigation
  and input rules (`chart`), what the phone and web front ends are handed (`share`),
  the bill of materials and compliance documents of the command line
  (`compliance`), and text helpers (`text`). `clock` reads the local date.
- `app/` is the command line and the glue that Verus does not see: the SQLite
  file behind the store, the Android and web entry points, and audio capture
  and transcription, which work on floating-point samples.
- `tests/` runs the library on concrete values.
