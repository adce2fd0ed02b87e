# Riffle

Riffle streams the changes of one Delta Lake table into another. A consumer reads the commits of a
table version by version, splits large ones into chunks, merges small ones into batches, and keeps a
checkpoint from which it goes on, in the middle of a version too. A dashboard shows what happens and
changes the thresholds while everything runs.

The decisions are a library that is verified with Verus; everything that touches the network, the
disk or a query engine is ordinary Rust around it.

## Layout

- `src/` - the verified library
  - `consumer` - units of work, checkpoints, the adaptive consumer, rows of a commit file
  - `sink` - appending, overwriting and merging: statements, columns and clauses
  - `cli_stream` - streams from table to table, batches of versions, one job at a time
  - `cli_create`, `sample_data`, `producer`, `random` - synthetic tables and rows
  - `source_eventhub` - Azure Event Hubs as a source
  - `config`, `util` - storage backends, credentials, locations of tables
  - `state`, `web`, `log_layer`, `clock` - the dashboard, its requests and its log
  - `tables_inspect`, `maintenance`, `cli_enable_cdf` - looking at tables and keeping them up
  - `text` - trimming, splitting, searching and number formatting
- `tests/` - tests of the library
- `app/` - the program: command line, web server, Delta tables, Event Hubs

## What is proved

- The units of a poll complete every pending version once and in order, and hold every row once.
- A consumer that stops after any unit goes on with exactly the next one, under the same
  thresholds.
- Merged units stay within the limits on rows and commits; chunks but the last stay within the
  target.
- The batches of a stream cover the due versions without gaps or overlaps, and no batch goes past
  the requested end.
- By the clauses that a merge is handed, rows that a change feed marks as deleted only ever delete,
  and the feed's own columns are never written. In a model of what these clauses do to rows, the
  latest change of a row wins, other rows stay, and repeating a merge changes nothing.
- In a model of a write, an overwrite leaves the rows of its batch and nothing else, so that
  repeating it changes nothing.
- Jobs run one after the other, and a job that fails leaves the way free for the next.
- The commits of a new table hold exactly the requested rows.
- Event Hub checkpoints belong to one source, and reading goes on behind every event of a batch.

Calls into other crates stand behind a few functions whose contracts are believed; each says in its
comment what it claims.
