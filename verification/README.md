# symbolic_regression

The configuration, dataset and command-line layer of a symbolic-regression
engine, written in Verus with its behaviour stated in contracts and proved.

- `src/` is the verified library: search options, the JSON configuration
  reader and the JSON report strings, the command line and its
  configuration file, loss kinds, dataset layout and row bookkeeping
  (delays within sequences, random batches), birth orders and the
  evaluation buffers, and comma-separated tables.
- `tests/` runs the library on concrete values.
- `app/` is ordinary Rust around the library: the real-valued losses,
  averages and options, the clock, and the reading and printing of a
  command-line run.
