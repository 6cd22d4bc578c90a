# lost_expedition

The server side of a co-op survival game. Players search a forest and speak to
NPCs; an outside director has their questions answered and writes the replies
back. The library holds the rules. It is written in Verus, and every function in
`src/` is proved to meet its contract but `same_identity`, which is trusted.

## Layout

- `src/table.rs`: keyed tables that record their changes
- `src/schema.rs`, `src/database.rs`: the rows, the eight tables, the clock
- `src/director.rs`: asking, claiming, renewing, replying, giving up
- `src/tick.rs`: the clock's tick and its housekeeping
- `src/players.rs`, `src/roster.rs`, `src/environment.rs`: the other reducers
- `src/history.rs`, `src/soundness.rs`, `src/laws.rs`: what holds of every series
  of calls
- `src/loading.rs`: which rows a reducer has to be given, and what its changes
  make of the whole store
- `src/identity.rs`: the outside types, and the one outside call that is trusted
- `app/`: the module that runs in SpacetimeDB

## How a reducer runs

SpacetimeDB keeps the tables. A reducer in `app/` loads the rows that it reads
into a `Database`, calls the function of the library that has its name, and then
performs the changes that the tables recorded. Ids come from the host's sequences
and are handed to the library. Numbers with a fraction travel as bit patterns:
the library carries them and does not compute with them.
