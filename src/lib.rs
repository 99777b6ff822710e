//! A registry of rooms, each holding users, each user holding the bytes of
//! input appended to it so far.

pub mod laws;
pub mod registry;
pub mod room;

pub use registry::RoomRegistry;
pub use room::{Room, User};
