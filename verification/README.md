# surreal_queue_bench

A benchmark for a SurrealDB-backed job queue built on composite record ids,
hash buckets shared among workers by rendezvous hashing, and short-lived
lease tokens.

- `src/` is the verified library (Verus): the consumer's bucket scheduling
  as a state machine (`consumer`, `buckets`), bucket ownership
  (`partition`), the producers' task split and job keys (`jobs`), matrix
  sweeps (`matrix`), settings and their checks (`config`, `paths`), the
  SurrealQL text and the values bound into it (`queries`), and the integer
  statistics of the reports (`stats`, `summary`, `report`, `text`).
- `app/` is the program around it: command-line parsing, the database
  calls, the async workers, and the floating-point parts of the reports.
- `tests/` exercise the library on concrete values.
