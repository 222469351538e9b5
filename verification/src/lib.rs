//! Merkle-proof verification for stake snapshots, and the small pieces of
//! command-line logic that sit beside it.

pub mod cli;
pub mod error;
pub mod hashing;
pub mod hex_text;
pub mod merkle;

pub use cli::{CliSettings, Cluster};
pub use error::NCNProgramError;
pub use hashing::{Hash32, Pubkey};
pub use hex_text::parse_hex_32;
