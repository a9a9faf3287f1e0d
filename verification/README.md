# cozal

A verified library of the building blocks of a time-travelling event engine:
timestamps, input and output buffers, a pinned chunked stack, a sparsely
buffered stack, the frame of scheduled events with its expire handles, and
the state machines that run steps, groups of steps and caller channels.

- `src/` is the library. Every function there carries a contract that Verus
  proves; the few calls into `im`, `rand_chacha` and `std` that Verus cannot
  read are wrapped in small trusted items whose contracts say what those
  crates document.
- `tests/` runs the library on concrete values.
- `app/` holds the asynchronous edge: the `Source` traits, the future an
  update awaits its input state through, and the loop that drives the passes
  of a poll, handing the library what the user's handlers and the source
  answered.

## Collections

- The frame's schedule is a `Vec` kept sorted by event key, searched by
  bisection. Its payload type is the transposer's, and a name for an outside
  collection's contents must be a function without generics, so an
  `im::OrdMap` of generic payloads cannot be given one; the expire-handle
  tables, whose entries are plain integers, stay `im` maps behind trusted
  wrappers.
- The input and output buffers are `Vec`s of time groups kept sorted by time.
  vstd specifies `BTreeMap`'s `new`, `insert`, `get`, `contains_key`,
  `remove`, `len` and iteration, but not `pop_first`, `first_key_value`,
  `split_off` or entry access, which the buffers are built on.
- A step group's interpolations are a `Vec` of channel and time: the values
  of the original map are the user's interpolation computations, which run
  outside, and a `Vec` gives the woken channels in a fixed order.
