//! Game rules of Dartman, a top-down arena game: a player walks the arena,
//! throws darts at goblins that spawn along its edges, and the score counts
//! goblins struck by darts and goblins that reached the player.
//!
//! Everything that decides something from plain values lives here and is
//! verified: which entities a collision round removes and how the score moves,
//! the direction the movement keys ask for, how many darts a burst of mouse
//! presses throws, where a wave of goblins enters the arena, and the text of
//! the score display. Float geometry and the engine's plumbing stay with the
//! program that runs the game.

pub mod collision;
pub mod movement;
pub mod score;
pub mod spawn;
pub mod throwing;
