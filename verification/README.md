# paneru

The rules of a sliding, tiling window manager, written and proved in Verus.

The windows of a workspace stand in columns, side by side on a strip that is wider than the
display. Focusing a window slides the strip; a column that is out of view keeps a thin strip of
itself at the edge. The windows of one column share its height.

## Layout

- `src/` is the library. Every rule is a function from what is known to the changes that it asks
  for, queued in `commands::Commands`; its contract says exactly which.
  - `geometry`, `sequences`: lengths, and sequences built item by item.
  - `pane`, `display`, `platform`, `events`, `ecs`: what the rules speak of.
  - `binpack`, `layout`, `reshuffle`: where windows stand.
  - `animate`, `swipe`: how they get there.
  - `lifecycle`, `timeout`, `orphans`, `watchers`, `setup`: what comes and goes.
  - `dispatch`, `handler`, `schedule`, `startup`: events, the main loop, and the way to it.
- `tests/` runs the library on concrete values.
- `app/` is the program around it: the command line, the threads, the entity world, and the
  interfaces that a system has to offer.
- `extras/` holds the property list of the macOS bundle.

The laws of the library, which relate several rules or many steps of one, are the public proof
functions whose names begin with `law_`.

## Units

A length is an `i64` in units of 1/65536 point, a fraction is in units of 1/2^32, and a stretch of
time is in seconds and nanoseconds. Entities are 64-bit numbers. Whatever belongs to the system (an
application, a window, an observer) is a number that stands for it.

## What is not proved

`timeout.rs` relies on what is written there of two functions around `bevy::time::Timer`, and
`events.rs` passes `notify::Event` on without looking inside.
