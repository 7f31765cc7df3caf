# futures_bmad_engine

The core of a futures trading engine, written and proved in Verus: order life
cycle, brackets, position tracking, regime detection, data-quality checks, the
event journal, and replay and paper trading.

## Layout

- `src/` is the library. Its functions state in their contracts what they return
  or change, over mathematical models of the types. What other threads decide is
  left open: the value of the flag behind `EventLoopHandle`, and how many events
  wait in the journal channel.
  - `types`, `arith`, `text`, `keys`, `queue`, `pairing`: plain values and helpers
  - `buffer_monitor`, `connection`, `data_quality`, `order_book`, `event_loop`:
    the market data side
  - `order_manager`: orders, their state machine and write-ahead log, brackets,
    positions and reconciliation; `order_manager::laws` holds what spans several
    operations
  - `persistence`: the journal channel and its rows, queries over them, the
    calendar, and the columns and files of recorded market data
  - `regime`: threshold classification and strategy permissions
  - `data`, `replay`, `paper`: recorded and simulated sessions
- `app/` is the `engine` program: command line, SQLite, Parquet files, clocks and
  floating-point ratios.
- `tests/` runs the library on concrete values.

## What is taken on trust

The library calls three outside crates through small wrappers whose contracts are
not proved: crossbeam channels in `persistence::journal`, the calendar of chrono
in `persistence::parquet_writer`, and tokio's channel in `event_loop`. One more
wrapper, in `event_loop`, stands for the standard library's `Arc::clone`.

## Conventions

Prices are counted in quarter-ticks and times in nanoseconds since the Unix
epoch. The library touches no file and calls nobody back: what it wants written
or told waits in outboxes such as `OrderManager::take_wal_ops` and
`OrderManager::take_trips`.
