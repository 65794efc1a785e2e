# campus_data

The data model and rules behind a campus map: one record per building, the
category and amenity filters, weekly opening hours judged in campus time
(`America/Chicago`), and the consistency checks every building file must pass.
The library is written in Verus; its contracts and laws are proved.

Layout:

- `src/building.rs`: the building schema, coordinates compared as IEEE-754
  numbers, and the category (any of) and amenity (all of) filters.
- `src/hours.rs`: times of day, weekly schedules, instants, and whether a
  building is open; `chrono` and `chrono-tz` do the parsing and the time-zone
  conversion behind small trusted wrappers.
- `src/date.rs`: calendar dates, their order and their `YYYY-MM-DD` form.
- `src/validate.rs`: the per-file and cross-file rules, with exact messages.
- `src/text.rs`, `src/layout.rs`: number and string formatting; where the
  dataset lives and the order its files are taken in.
- `app/`: the command-line tool (`validate-data`, `open-now`), reading TOML
  files with `serde` and `toml`.
- `tests/`: tests on concrete values.
