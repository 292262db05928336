//! Engine of a two-player noughts and crosses server: the board, the reading
//! of moves, and the session's state machine.
pub mod game;
