# blockscout_services

The decisions of two services, verified with Verus.

- **Operation indexer.** Time from the watermark to now is cut into intervals, which are saved batch
  by batch. Streams claim pending intervals and operations in the database. The operations of an
  interval are fetched and saved, the stages of an operation are asked for, and what fails is tried
  again with exponential backoff.
- **Multichain aggregator.** Its settings and their defaults.

`src/` is the verified library. Work that touches the outside world is written as coroutines: a run
is resumed with the answer to the effect that it asked for last and gives the next effect. The
contract of each `resume` is a transition function; the `law_` proof functions say what holds of
whole runs, whatever the answers are. The laws of `claims` are about any number of streams on one
table, on a database that does what the statements say.

`app/` is ordinary Rust around it: it carries the effects out on the database, the network and the
clock, and reads settings and replies. `tests/` runs the library.
