//! Selection and move application for a chess board, on top of the `chess`
//! rules engine: clicks become a selection, a selection becomes a move, and an
//! accepted move becomes a list of effects on a registry of pieces.

pub mod engine;
pub mod game;
pub mod laws;
mod outside;
pub mod registry;
pub mod resolve;
pub mod types;

pub use game::{Game, MoveOutcome};
pub use registry::Registry;
pub use resolve::{apply_accepted, promotion_for, Prior};
pub use types::{Effect, Move, Piece, PieceColor, PieceKind, Selection, Square};
