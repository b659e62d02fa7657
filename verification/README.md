# antigen_curses

A curses front end for a small entity-component game engine: the systems
that read keyboard and mouse input from the terminal, keep window, color
and palette state, lay out list controls, order and composite the scene's
controls, and turn all of it into cells for the curses terminal.

The library under `src/` is written in Verus. Every function states what it
returns or changes in its `requires`/`ensures` contract, and the laws that
relate several functions (registering a color twice changes nothing, a
repeated mouse report is quiet, splitting text into lines loses nothing,
the palette lookup table inverts the palette order, and more) are proof
functions next to the code they speak of.

- `src/components/`: the data the systems work on (palettes, color sets,
  input buffers, selections, window handles).
- `src/systems/`: the decisions of each system, as functions from plain
  values to plain values or as methods on the system's state.
- `src/curses_cell.rs`, `src/systems/curses_mouse.rs` and
  `src/components/window_component.rs` hold the few items whose contracts
  are taken on trust from pancurses: the cell encoding, the mouse button
  bits, and the window handle.
- `tests/`: tests of the library on concrete values.
- `app/`: the program around the library: terminal I/O through pancurses,
  the frame loop, and the floating-point color conversions.
