//! Balloon hashing: a memory-hard password hashing and key derivation
//! function built on BLAKE3, with every step of the block mixing stated
//! and proved against a mathematical model.

pub mod buffer;
pub mod derive;
pub mod engine;
pub mod error;
pub mod hash;
pub mod model;
pub mod pow;
pub mod utilz;

pub use buffer::SpaceHandler;
pub use derive::{balloon, compare_ct, verify};
pub use engine::Balloon;
pub use error::Error;
pub use pow::{hashcash_balloon, hashcash_input, leading_zeros, meets_difficulty};
pub use utilz::be_u8_from_u32;
