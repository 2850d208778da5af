# chess

A chess move generator written in Verus: a board with make and unmake of
moves, pseudo-legal move generation, legality testing, perft counting,
and reading of FEN strings and coordinate notation.

Modules (under `src/`):

- `types` — pieces, squares, castling kinds, moves, parse errors.
- `lists` — the `arrayvec` lists the board uses (move lists, castling
  rights), with the contracts of the `ArrayVec` methods called.
- `board` — the board, its model `BoardView`, `make_move`, `unmake_move`,
  the law that a move keeps, in order, the castling rights it does not take
  away, and the round-trip law: making a move that records what taking it back
  needs and then taking it back gives the board back.
- `attacks` — attacked squares and check.
- `movegen` — move generation, specified move by move in generation order,
  and move annotation.
- `soundness` — generated moves only touch cells on the board, and making
  one changes no cell but its own, the cell of a pawn taken en passant and
  the two cells of a castling rook; on a board a
  game can reach they can be taken back exactly, and making one keeps the
  board one a game can reach.
- `perft` — legality and perft, with the laws that perft leaves the board
  as it found it and counts the legal move sequences whenever every move it
  makes can be taken back exactly (which holds on every board a game can
  reach where no move perft makes takes a king). `try_perft` and
  `try_gen_moves` are checked forms of `perft` and `gen_moves`: they give
  `None` where a move list is too small, the board remembers no position, a
  depth of zero meets a legal move, or a count passes `usize`.
- `notation`, `fen`, `text` — reading squares, moves and FEN; the text forms
  of squares, moves, pieces and boards.

`app/` holds `Display` wrappers for the library's types.
