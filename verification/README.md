# navdata_interface

The logic of a navigation data gauge for a flight simulator, verified with
Verus: how database rows become airways, airspaces and procedures, how the
queue of calls from the simulator is started, settled and answered, and how
downloads of navigation data are cleaned, extracted and reported.

Layout:

- `src/` is the verified library. Each module states its functions'
  behaviour in `requires`/`ensures` over spec functions, and holds proof
  functions for the properties that span calls (one procedure per
  identifier, no airway fix lost, every airspace bounded, no task lost in
  the queue, and so on).
- `tests/` runs the library on concrete values.
- `app/` is the gauge around the library: SQLite queries, the file system,
  network requests, the simulator's commbus, JSON, Sentry reports, and the
  floating point geometry of range queries.

Measured values (degrees, feet, frequencies) are a type parameter `D` in the
library; the gauge uses `f64`.
