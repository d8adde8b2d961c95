//! Decoder for point-in-time captures of a running game's memory.
//!
//! A capture is a plain byte buffer. The decoder locates the fixed-layout
//! tables that the engine keeps at known offsets, validates them through the
//! guard values scattered over the format, and materialises the live objects,
//! players and tag names as an [`snapshot::EngineSnapshot`].

pub mod handle;
pub mod layout;
pub mod objects;
pub mod players;
pub mod snapshot;
pub mod tags;
pub mod text;
pub mod wire;
