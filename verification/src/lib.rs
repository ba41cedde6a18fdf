//! Room lifecycle and broadcast core of a collaborative pixel-canvas server.
//!
//! Clients create or join a room and exchange drawing operations that are
//! fanned out to every member of that room. This crate holds the rooms, the
//! canvases and the decisions of the per-connection handlers; reading from
//! and writing to the connections is left to the caller.

pub mod canvas;
pub mod connection;
pub mod fanout;
pub mod handle_join;
pub mod handle_payloads;
pub mod ident;
pub mod payload;
pub mod pixel;
pub mod registry;
pub mod room;

pub use crate::canvas::to_pixel_vec;
pub use crate::payload::{ClientPayload, ServerPayload};
pub use crate::pixel::{Pixel, PixelColour};
pub use crate::room::Room;
