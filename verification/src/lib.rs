//! A generalized tic-tac-toe engine: a square board of configurable
//! dimension, two fixed players, coordinate addressing by column letter and
//! one-indexed row number, and a win/draw evaluator that scans every row,
//! every column, and both full diagonals.
//!
//! The engine itself performs no input or output: a host drives it by
//! parsing coordinate text, applying moves, and rendering the resulting
//! state read from the game value.

pub mod board;
pub mod coords;
pub mod game;
pub mod outcome;
pub mod parse;

pub use board::Board;
pub use board::PlaceError;
pub use board::Player;
pub use board::Tile;
pub use board::TileDisplayState;
pub use board::TileOccupationState;
pub use coords::AddressingError;
pub use coords::Coordinates;
pub use coords::Indices;
pub use coords::MAX_DIMENSION;
pub use coords::MIN_DIMENSION;
pub use game::ConfigError;
pub use game::Game;
pub use game::MoveError;
pub use game::Notification;
pub use game::NotificationMessage;
pub use game::NotificationType;
pub use outcome::GameOutcome;
pub use parse::ParseError;
