# tetrs_engine

A tetromino game engine whose behaviour is stated in contracts and proved with Verus, and a
small terminal frontend around it.

## Layout

- `src/` — the verified library:
  - `pieces.rs`: tetrominos, orientations, pieces on the board, fitting and dropping;
  - `rotation.rs`: the Ocular, Classic, Super and Okay rotation systems and their kicks;
  - `modes.rs`: game modes and their limits;
  - `generation.rs`: tetromino generators (uniform, bag, recency, total-relative) and their
    random draws (through `rand`);
  - `events.rs`: the game's internal events and their schedule;
  - `game.rs`: the game state machine: `Game::update` steps through the scheduled events up to
    a requested time, applying button changes, locking, line clears, scoring and game ends;
  - `puzzle.rs`: the puzzle mode, a modifier of the game's rules;
  - `view.rs`: what a player sees of a game (board with piece and landing piece, goal);
  - `text.rs`: durations and accolade messages as text;
  - `menus.rs`: the new game menu (preset, puzzle and custom modes, and the custom mode's
    settings), the settings menu and the controls menu (key rebinding), as steps from state
    and key to next state and action;
  - `scores.rs`: the scoreboard of finished games, the order it is kept in, its lines and
    scrolling, and the tally and statistics shown when a game ends;
  - `laws.rs`: properties relating several operations, proved.
- `tests/` — tests on concrete values.
- `app/` — the terminal frontend (keyboard thread, drawing, menus on screen, settings and
  scoreboard storage).

Game time is counted in nanoseconds (`u64`); the soft drop factor in millionths.
