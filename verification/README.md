# echess

The verified core of a terminal chess game: reading and naming squares in
algebraic notation, judging typed move requests against the board, reading the
menu, difficulty and yes/no answers, naming recording files and writing their
lines, drawing random moves, watching for repeated moves, and composing the
coloured lines the game prints.

- `src/` is the library, verified with Verus (`board`, `notation`, `prompt`,
  `random`, `game`, `style`, `text`, `numbers`).
- `tests/` runs the library on concrete values.
- `app/` is the terminal program around it: menus, reading lines, printing,
  the game loops and the recording file. It also needs the game's engine
  modules (`cpu`, `evalfunc`, `moves`, `types`: move generation, check detection,
  the computer player and board drawing).
