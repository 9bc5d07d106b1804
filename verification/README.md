# liters

Replicates SQLite databases to buckets of LTX files, and materializes buckets as
read-only local replicas. The library is written in Verus: every function states
what it returns or changes, and the properties that span functions are proved.

## Layout

- `src/` is the library. It decides and does no I/O.
  - `ltx/` is the file format: headers, trailers, page headers, file names, and
    the LZ4 frames that hold pages.
  - `writer`, `verify`, `push` and `upload` are the write side: planning one L0
    file per push, finding the place in the WAL to resume at, the order of a
    push, and the check that the bucket still tells this database's history.
  - `replica`, `incremental`, `restore`, `apply`, `lock` and `follow` are the
    read side.
  - `ffi`, `http` and `manager` are the surface for host apps.
- `app/` performs the actions that the library names: files, `fcntl` locks,
  SQLite, threads, a host's HTTP client.
- `tests/` runs the library on concrete values.

## Steps

Where a decision alternates with outside work, the library offers a state
machine. A step takes what the last action came to and gives the next action:

```rust
let mut run = Push::new();
let mut action = writer.push(&mut run);
loop {
    let event = perform(action);
    action = writer.push_with(&mut run, event);
}
```

Each step is total: an event that does not answer the last action gives
`Unexpected` and changes nothing. A spec function over mathematical views
(`push_step`, `upload_step`, `sync_step`, ...) says exactly what a step does, and
the public proof functions named `lemma_*` beside it state what holds of every
run.

## What is trusted

The contracts of the calls into `lz4_flex`, `twox-hash` and `rand`, and of a few
functions of the standard library that have no specification of their own. Each
stands at one small function whose doc comment says what is claimed.
