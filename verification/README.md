# pacman

The rules of a Pac-Man game as a Verus library, with a thin desktop front end.

- `src/` holds the verified library: the stage machine (opening, play, ghost-eaten
  pause, death sequence, game over), pausing and single-stepping, keyboard
  bindings and per-frame input handling, the window layout, the ghost house,
  the scatter/chase clock, Elroy, per-ghost state, targeting and movement
  decisions, the attract-mode player, audio control, animation clocks,
  lifetimes, HUD placement, debug-overlay geometry, sprite and glyph atlases, and
  frame-timing windows. Each public function states its result in its contract;
  the laws that span several calls are public proof functions.
- `tests/` runs the library on concrete values.
- `app/` opens the window, turns platform events into the library's plain
  values, plays the mixer commands the library returns and draws the frame. The
  floating-point pieces (pointer mapping, touch easing, timing statistics) live
  there.
