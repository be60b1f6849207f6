# floormap

Floor plans, their pages ("floor maps") and the objects placed on them.

- `src/` is the verified library (Verus): identifiers and timestamps, the rows
  of the tables, an in-memory store with every operation the programs perform
  on the tables (updates, inserts that shift page order, import and export),
  the JSON API queries, the `~meta~` notation in descriptions, and the
  decisions of the command-line tool and of the upload page.
- `app/` holds the programs around it: SQLite access through diesel, the JSON
  forms through serde, the command-line tool, and the iron web services.
- `tests/` runs the library on concrete values.
