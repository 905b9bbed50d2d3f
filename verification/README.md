# limspce

A small arena game: the player stands on a drifting, shrinking platform,
enemies circle it and fire, and blanks wipe out the shots they touch.

- `src/` is the verified library: the screens and their key handling
  (`state`), the game's counters and lists and the steps of an update
  (`game`), the shot contacts and the removals they cause (`contact`),
  swap-removal and order-keeping removal on lists (`removal`), and the one
  draw from macroquad's random generator (`random`).
- `app/` is the macroquad program: window, keys, drawing, and everything
  that computes on positions, which are floating point.
- `tests/` exercises the library on concrete values.
