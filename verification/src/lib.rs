//! Session engine for a moderator-run, multiplayer trivia show: the board,
//! the per-game state machine, the seed codec and the rules around them.

pub mod avatar;
pub mod clock;
pub mod data;
pub mod errors;
pub mod game;
pub mod ids;
pub mod registry;
pub mod rng;
pub mod seed;
pub mod server;
pub mod text;

pub use ids::{AuthToken, GameId, PlayerId};
