//! The join protocol: what a connection may do before it is in a room.

use crate::ident::{fresh_id, is_random_uuid};
use crate::payload::{ClientPayload, Inbound, ServerPayload};
use crate::registry::{created, joined, Registry, RegistryView};
use vstd::prelude::*;

verus! {

/// How the join protocol went on after one inbound message.
pub enum JoinStep<S> {
    /// The connection is now the member `user_id` of the room `room_id`, its
    /// sink is registered there, and `reply` is owed to the client.
    Joined { room_id: u128, user_id: u128, reply: ServerPayload },
    /// The room that was asked for does not exist. `reply` is owed to the
    /// client and the connection keeps waiting, with its sink.
    NotFound { reply: ServerPayload, sink: S },
    /// The message was dropped. No reply is owed and the connection keeps
    /// waiting, with its sink.
    Discarded { sink: S },
    /// The stream ended before the connection was in any room.
    Closed { sink: S },
}

impl<S> JoinStep<S> {
    /// The reply that is owed to the client, if any.
    pub open spec fn reply(self) -> Option<ServerPayload> {
        match self {
            JoinStep::Joined { reply, .. } => Some(reply),
            JoinStep::NotFound { reply, .. } => Some(reply),
            JoinStep::Discarded { .. } => None,
            JoinStep::Closed { .. } => None,
        }
    }
}

/// Whether `step` and the registry `after` are what the join protocol makes
/// of `message` on the registry `before`, for a connection with `sink`.
///
/// The identifiers that are handed out are new random UUIDs; which ones is
/// not determined.
pub open spec fn join_step<S>(
    before: RegistryView<S>,
    message: Inbound,
    sink: S,
    step: JoinStep<S>,
    after: RegistryView<S>,
) -> bool {
    match message {
        Inbound::Payload(ClientPayload::CreateRoom) => {
            &&& step matches JoinStep::Joined { room_id, user_id, reply }
            &&& is_random_uuid(room_id)
            &&& is_random_uuid(user_id)
            &&& reply == (ServerPayload::NewRoom { room_id, user_id })
            &&& after == created(before, room_id, user_id, sink)
        },
        Inbound::Payload(ClientPayload::JoinRoom(wanted)) => if before.contains_key(wanted) {
            &&& step matches JoinStep::Joined { room_id, user_id, reply }
            &&& room_id == wanted
            &&& is_random_uuid(user_id)
            &&& reply matches ServerPayload::Join { user_id: member, room }
            &&& member == user_id
            &&& room.shows(before[wanted].id, before[wanted].pixels)
            &&& after == joined(before, wanted, user_id, sink)
        } else {
            &&& step == (JoinStep::NotFound { reply: ServerPayload::RoomNotFound, sink })
            &&& after == before
        },
        Inbound::Payload(ClientPayload::Draw(_)) | Inbound::Payload(ClientPayload::Reset)
        | Inbound::Malformed => {
            &&& step == (JoinStep::Discarded { sink })
            &&& after == before
        },
        Inbound::Closed => {
            &&& step == (JoinStep::Closed { sink })
            &&& after == before
        },
    }
}

/// Handles one inbound message of a connection that is in no room yet.
///
/// `CreateRoom` makes a new room with this connection as its only member;
/// `JoinRoom` adds it to an existing room or is answered with
/// `RoomNotFound`; anything else is dropped without a reply.
pub fn handle_join<S>(rooms: &mut Registry<S>, message: Inbound, sink: S) -> (step: JoinStep<S>)
    ensures
        join_step(old(rooms)@, message, sink, step, final(rooms)@),
        old(rooms).wf() ==> final(rooms).wf(),
{
    match message {
        Inbound::Payload(ClientPayload::CreateRoom) => {
            let room_id: u128 = fresh_id();
            let user_id: u128 = fresh_id();
            rooms.create_room(room_id, user_id, sink);
            JoinStep::Joined { room_id, user_id, reply: ServerPayload::NewRoom { room_id, user_id } }
        },
        Inbound::Payload(ClientPayload::JoinRoom(room_id)) => {
            if rooms.contains_room(room_id) {
                let user_id: u128 = fresh_id();
                match rooms.join_room(room_id, user_id, sink) {
                    Ok(room) => JoinStep::Joined {
                        room_id,
                        user_id,
                        reply: ServerPayload::Join { user_id, room },
                    },
                    Err(e) => JoinStep::NotFound { reply: ServerPayload::RoomNotFound, sink: e.sink },
                }
            } else {
                JoinStep::NotFound { reply: ServerPayload::RoomNotFound, sink }
            }
        },
        Inbound::Payload(_) | Inbound::Malformed => JoinStep::Discarded { sink },
        Inbound::Closed => JoinStep::Closed { sink },
    }
}

/// A reply is owed exactly for `CreateRoom` and `JoinRoom`: one for each
/// such message and none for any other.
pub proof fn lemma_one_reply_per_intent<S>(
    before: RegistryView<S>,
    message: Inbound,
    sink: S,
    step: JoinStep<S>,
    after: RegistryView<S>,
)
    requires
        join_step(before, message, sink, step, after),
    ensures
        step.reply() is Some <==> (message matches Inbound::Payload(payload) && (payload is CreateRoom
            || payload is JoinRoom)),
        step is NotFound ==> step.reply() == Some(ServerPayload::RoomNotFound),
{
}

/// Once a connection has joined, its sink is registered in its room: no
/// event of that room can pass it by.
pub proof fn lemma_joined_member_is_registered<S>(
    before: RegistryView<S>,
    message: Inbound,
    sink: S,
    step: JoinStep<S>,
    after: RegistryView<S>,
)
    requires
        join_step(before, message, sink, step, after),
    ensures
        step matches JoinStep::Joined { room_id, user_id, .. } ==> after.contains_key(room_id)
            && after[room_id].users.contains_key(user_id) && after[room_id].users[user_id] == sink,
        !(step is Joined) ==> after == before,
{
}

} // verus!
