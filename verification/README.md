# simple_console

Text consoles drawn on a grid of character cells, verified with Verus.

- `src/cell_grid.rs` — the cell grid and `CellWriter`, which interprets
  backspace, newline and carriage return, wraps lines, floats the cursor
  on the last cell and scrolls. Its contract is the byte-by-byte state
  machine `write_step` / `write_run` over any `CellBackend`.
- `src/cursor.rs` — the cursor state and `with_cursor_hidden`.
- `src/simple.rs` — the console traits and their contracts.
- `src/simple/fb.rs` — a console drawn with a bitmap font into a linear
  pixel framebuffer; `src/simple/pixels.rs` paints blocks of pixels.
- `src/simple/vga.rs` — a VGA text-mode console (80 × 25 cells).
- `app/` — bindings to real hardware: copying the consoles' buffers to
  video memory, the VGA CRT controller's ports, and the store fence for
  write-combining framebuffers.

The consoles draw into buffers they own; every drawing operation is
stated exactly over the buffer's contents.
