//! Decoders for the puzzle and solution file formats of a hex-grid chemistry game.
//!
//! Each decoder is a spec-level function over the bytes (`spec_puzzle`, `spec_solution`) and an
//! executable one proved to return exactly what it describes.
pub mod cursor;
pub mod data;
pub mod decode;
pub mod laws;
pub mod molecule;
pub mod puzzle;
pub mod solution;
pub mod truncation;

pub use cursor::{BaseParser, ParseError};
pub use data::{
    Atom, Bond, BondType, Chamber, ChamberType, Conduit, HexIndex, Instruction, Metrics, Molecule,
    Part, PartType, Permissions, ProductionInfo, Puzzle, Solution,
};
pub use puzzle::parse_puzzle;
pub use solution::parse_solution;
