# retris

A falling-block puzzle for the Game Boy Advance that follows the usual
guideline rules: Super Rotation System with wall kicks, seven-bag
randomizer, hold, five next pieces, ghost piece, T-Spin detection,
back-to-back, combo, perfect clear, move-reset lock delay and DAS/ARR.

## Layout

| Path | Contents |
| --- | --- |
| `src/` | `retris_core`, the game logic, verified with Verus |
| `tests/` | tests of the library, including long random playthroughs |
| `app/` | the Game Boy Advance frontend (agb): screens, tiles, font, sound |

The library states its behaviour as contracts over mathematical models:
the field is a sequence of 40 rows of 10 cells, the next queue a sequence of
kinds, and a whole game a `GameState` whose one-frame transition is the spec
function `st_update`. `Game::update` is proved to perform exactly that
transition and to keep the game invariant (the piece under control always
fits the field).
