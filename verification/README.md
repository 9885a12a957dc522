# rsnaker

The logic of a terminal snake game, as a library verified with Verus: the
state of a game and what a tick decides, the fruits and their timers, the
best scores, the game options and their random draws, and the menus and
retro tables. A thin program around it parses the command line, runs the
main menu and the tables with ratatui, stores the best scores with sled and
writes logs with tracing. It does not run a game: the snake's body, the map
and the drawing of a game are not part of this project.

## Layout

- `src/`: the verified library
  - `state.rs`: lives, score and status of a game, game over selection
  - `playing_logic.rs`: what a tick does, the effect of eaten fruits, bites
  - `fruits_manager.rs`, `sprites/fruit.rs`: fruits, their lottery and timers
  - `high_score.rs`: keys of the score store and ranks among the best scores
  - `options.rs`, `random_helper.rs`: game options, their ranges, presets
    and random draws
  - `controls/`: keys and the decisions of the main menu and of the game input
  - `menus/`: the retro tables, the parameters table, the welcome snake
  - `text.rs`, `unicode.rs`, `clock.rs`, `geometry.rs`, `logger.rs`: helpers
- `tests/`: tests of the library
- `app/`: the terminal program (command line, presets, logging, drawing)

Each public function of `src/` states its result in its `ensures` clause;
the properties that relate several functions are the public `lemma_*`
proof functions.
