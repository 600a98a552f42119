# tyde

A command-line catalogue of the artists in a music library, kept in an SQLite
database.

- `src/` is the verified library (Verus): reading `name;type=...;lang=...`
  arguments, showing names, normalising and comparing names, the statements an
  artist entry issues (`AddArtist`), the schema migration plan (`Migrator`),
  timestamps, settings and the verbosity flag.
- `app/` is the program around it: command-line parsing, the configuration
  file, logging, the interactive confirmation and the database connection,
  which carries out the statements the library decides on.
- `tests/` exercises the library.
