//! Rules engine of a falling-block puzzle game: board, active piece,
//! rotation with wall kicks, line clearing, scoring and the bag randomizer.

pub mod falling_piece;
pub mod next_queue;
pub mod playfield;
pub mod menu;
