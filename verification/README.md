# minesweeper

Terminal minesweeper. The game's logic is a Verus library under `src/`:

- `components/cell.rs`: a square and how it is drawn;
- `components/grid.rs`: the board, placing mines, the cursor, revealing and flagging;
- `components/flood.rs`: the flood reveal from a square with no mine around it;
- `components/play.rs`: what a round keeps true (the count of hidden safe squares, no mine opened by the flood);
- `components/count.rs`, `components/text.rs`: counting over a board, and decimal text;
- `appstate/`: the menu, a round in play, a round won or lost, and the game moving between them on key presses.

`app/main.rs` is the terminal front end: it reads key presses and the clock, draws the screens
with ratatui and hands each key press to the library.

How to play: move round the menu with the up and down arrows and change the board's height and
width and the number of mines with left and right; press Enter or space on `Start`. Move round the
board with the arrows, reveal with Enter or space, flag with `f`. The round ends once every empty
square is revealed, or a mine is.
