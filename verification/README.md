# dartman

The game rules of Dartman, a top-down arena game in which the player throws
darts at goblins that keep entering the arena, written in Verus and proved
against their contracts.

- `src/collision.rs`: which goblins and darts a collision round removes, and
  the score changes that go with it.
- `src/score.rs`: the score and the text of the score display.
- `src/movement.rs`: the step that the movement keys ask for.
- `src/throwing.rs`: how many darts a frame's mouse presses throw.
- `src/spawn.rs`: the size of a goblin wave and the arena edges it enters by.
- `app/main.rs`: the game itself on the Bevy engine; it does the float
  geometry (collision boxes, facing, motion) and hands every decision to the
  library.
- `tests/`: tests of the library on concrete values.
