# terminite

The logic of a terminal window that is split into panes with tabs: the pane
tree and its tabs, the mouse and the keyboard, menus, the command palette and
the find bar, selections and command blocks, tabs that show a module or a hosted
agent, saved layouts, and the room in which agents message each other and claim
files.

The library decides; a host acts. Its methods take what the host knows as plain
values, and answer with what the host is to do. Every contract is checked by
Verus.

- `src/` is the library. `renderer.rs` holds the window's state; the `*_laws.rs`
  files, and the `law_*` functions elsewhere, state what holds across calls.
- `tests/` runs it.
- `app/` is the window around it: pixels and floating point, the graphics
  device, fonts, the clipboard, and the traits by which a program supplies
  terminals, processes and sockets.

Sizes and positions pass through the library as `Scalar`, the bits of a
number that only `app/` computes with.
