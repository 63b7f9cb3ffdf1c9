//! A chess position engine: legal move generation, exact make/unmake of moves,
//! attack detection and position counting, with every rule stated as a contract.

pub mod attack;
pub mod board;
pub mod castling;
pub mod geometry;
pub mod laws;
pub mod legal;
pub mod mov;
pub mod movegen;

pub mod color;
pub mod coordinate;
pub mod fen;




pub mod piece;
pub mod setup;
