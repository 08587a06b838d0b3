# zellij_flash

A Zellij plugin that shows a terminal pane's scrollback in a floating pane,
with a cursor that moves over it and relative line numbers in a gutter.

The library under `src/` holds the plugin's logic, each function with a
contract that is proved:

- `source_pane`: which terminal pane to read, in four tiers (focused pane,
  hint, first tiled pane, any pane), scoped to the active tab.
- `viewer`: the captured lines, the cursor and the viewport: moves that wrap
  at line edges, half-page jumps that centre the cursor, start and end of
  line, horizontal pans, and the viewport that follows the cursor in both
  directions.
- `motion`: the word motions `w` `W` `b` `B` `e` `E` over the captured
  lines.
- `search`: where a query occurs in the captured lines, and the occurrence
  after or before a position.
- `jump`: word-jump mode (`s`, `S`): the case-blind matches of the typed
  text on the shown lines, their continuations, and the labels they get
  (a continuation no other match shares, else the pool, nearest first).
- `config`: the scrollback depth profiles (`profiles`, cycled with `g`),
  the float's size (`size`), the label characters (`labels`, `line_labels`)
  and the theme's colors (`color_*`), read from the plugin's configuration.
- `plugin`: the plugin's state; what each host event and key changes
  (selection anchor, copy and insert with its approval prompt, line-jump,
  word-jump and search modes, depth profiles) and which host calls it asks for; how a
  frame is drawn.
- `view`: the spans of the content rows, with the `…` indicator on lines
  that run past the right edge, and of the footer.
- `render`: colors, styles, their ANSI escape sequences, and the text that
  puts a frame buffer on the terminal.
- `term`: the ratatui frame buffer, layout and paragraph widget, behind
  trusted wrappers whose results are named.
- `text`: decimal numbers and padding.

`app/main.rs` is the plugin itself: it registers with Zellij, converts host
events to library events, performs the host calls the library asks for
(rename, resize, scrollback capture, clipboard, writing into the source
pane, close) and prints the frames.
