//! Decoding of tag-tree save records and extraction of world and player facts from them.

pub mod bytes;
pub mod decode;
pub mod encode;
pub mod error;
pub mod extract;
pub mod file;
pub mod grammar;
pub mod laws;
pub mod lookup;
pub mod report;
pub mod roundtrip;
pub mod tag;
pub mod text;
pub mod world;
