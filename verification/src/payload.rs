//! The messages that clients and the server exchange, as values.

use crate::pixel::Pixel;
use crate::room::RoomSnapshot;
use vstd::prelude::*;

verus! {

/// What a client asks of the server.
#[derive(Debug, Clone, Copy, PartialEq, Eq, Structural)]
pub enum ClientPayload {
    CreateRoom,
    JoinRoom(u128),
    Draw(Pixel),
    Reset,
}

/// What the server tells a client.
#[derive(Debug, PartialEq, Eq)]
pub enum ServerPayload {
    Draw { user_id: u128, pixel: Pixel },
    Reset(u128),
    Join { user_id: u128, room: RoomSnapshot },
    NewRoom { room_id: u128, user_id: u128 },
    RoomNotFound,
}

/// What reading from a connection gave.
#[derive(Debug, Clone, Copy, PartialEq, Eq, Structural)]
pub enum Inbound {
    /// A message that was recognised as a client's payload.
    Payload(ClientPayload),
    /// A message that is no payload of a client.
    Malformed,
    /// The end of the stream: the peer is gone.
    Closed,
}

} // verus!
