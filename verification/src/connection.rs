//! The life of one connection: join a room, take part in it, leave it.

use crate::fanout::FanOut;
use crate::handle_join::{handle_join, join_step, JoinStep};
use crate::handle_payloads::{
    broadcast_step, handle_payloads, needs_room, ready_for, BroadcastStep,
};
use crate::payload::{Inbound, ServerPayload};
use crate::registry::{left, Registry, RegistryView};
use vstd::prelude::*;

verus! {

/// Where a connection stands.
pub enum Connection<S> {
    /// In no room yet. The connection still holds its own sink.
    AwaitingIntent { sink: S },
    /// Member `user_id` of the room `room_id`, where its sink is registered.
    Joined { room_id: u128, user_id: u128 },
    /// Over. Nothing of it is left in the registry.
    Closed,
}

/// What is to be done for a connection after one inbound message.
pub enum Action<S> {
    /// Nothing.
    Nothing,
    /// Send the payload to the client of this connection.
    Reply(ServerPayload),
    /// Deliver an event to the members of the room.
    Broadcast(FanOut),
    /// The member has left its room: close the connection, through the sink
    /// if one was registered for it.
    Close(Option<S>),
}

/// Whether the connection `next`, the action and the registry `after` are
/// what follows for the connection `current` from `message` on the registry
/// `before`.
pub open spec fn connection_step<S>(
    before: RegistryView<S>,
    current: Connection<S>,
    message: Inbound,
    next: Connection<S>,
    action: Action<S>,
    after: RegistryView<S>,
) -> bool {
    match current {
        Connection::AwaitingIntent { sink } => exists|step: JoinStep<S>|
            {
                &&& join_step(before, message, sink, step, after)
                &&& match step {
                    JoinStep::Joined { room_id, user_id, reply } => {
                        &&& next == (Connection::<S>::Joined { room_id, user_id })
                        &&& action == Action::<S>::Reply(reply)
                    },
                    JoinStep::NotFound { reply, sink } => {
                        &&& next == (Connection::AwaitingIntent { sink })
                        &&& action == Action::<S>::Reply(reply)
                    },
                    JoinStep::Discarded { sink } => {
                        &&& next == (Connection::AwaitingIntent { sink })
                        &&& action is Nothing
                    },
                    JoinStep::Closed { sink } => {
                        &&& next is Closed
                        &&& action is Nothing
                    },
                }
            },
        Connection::Joined { room_id, user_id } => if message is Closed {
            &&& next is Closed
            &&& after == left(before, room_id, user_id)
            &&& action == Action::Close(
                if before.contains_key(room_id) {
                    before[room_id].users.get(user_id)
                } else {
                    None
                },
            )
        } else {
            exists|step: BroadcastStep|
                {
                    &&& broadcast_step(before, room_id, user_id, message, step, after)
                    &&& next == current
                    &&& match step {
                        BroadcastStep::Deliver(fan_out) => action == Action::<S>::Broadcast(fan_out),
                        BroadcastStep::Discarded => action is Nothing,
                        BroadcastStep::Closed => false,
                    }
                }
        },
        Connection::Closed => {
            &&& next is Closed
            &&& action is Nothing
            &&& after == before
        },
    }
}

/// Whether handling `message` for `connection` is possible on `rooms`: a
/// member can only draw in a room that exists.
pub open spec fn can_handle<S>(
    rooms: RegistryView<S>,
    connection: Connection<S>,
    message: Inbound,
) -> bool {
    connection matches Connection::Joined { room_id, .. } ==> (needs_room(message)
        ==> rooms.contains_key(room_id))
}

impl<S> Connection<S> {
    /// Whether the registry has what handling `message` for this connection
    /// requires.
    pub fn ready_for(&self, rooms: &Registry<S>, message: Inbound) -> (ready: bool)
        ensures
            ready == can_handle(rooms@, *self, message),
    {
        match self {
            Connection::Joined { room_id, .. } => ready_for(rooms, *room_id, message),
            _ => true,
        }
    }
}

/// Handles one inbound message of a connection, wherever it stands.
///
/// Before the connection is in a room its messages go to the join protocol.
/// Afterwards they go to the broadcast handler, until the stream ends: then
/// the member is removed from its room, and the room with it if no member
/// is left. A connection that is over takes no more messages.
pub fn handle_connection<S>(
    rooms: &mut Registry<S>,
    connection: Connection<S>,
    message: Inbound,
) -> (result: (Connection<S>, Action<S>))
    requires
        can_handle(old(rooms)@, connection, message),
    ensures
        connection_step(old(rooms)@, connection, message, result.0, result.1, final(rooms)@),
        old(rooms).wf() ==> final(rooms).wf(),
{
    match connection {
        Connection::AwaitingIntent { sink } => {
            let step = handle_join(rooms, message, sink);
            let ghost taken = step;
            let result = match step {
                JoinStep::Joined { room_id, user_id, reply } => (
                    Connection::Joined { room_id, user_id },
                    Action::Reply(reply),
                ),
                JoinStep::NotFound { reply, sink } => (
                    Connection::AwaitingIntent { sink },
                    Action::Reply(reply),
                ),
                JoinStep::Discarded { sink } => (Connection::AwaitingIntent { sink }, Action::Nothing),
                JoinStep::Closed { sink: _ } => (Connection::Closed, Action::Nothing),
            };
            assert(join_step(old(rooms)@, message, sink, taken, rooms@));
            result
        },
        Connection::Joined { room_id, user_id } => {
            match message {
                Inbound::Closed => {
                    let sink = rooms.remove_user(room_id, user_id);
                    (Connection::Closed, Action::Close(sink))
                },
                _ => {
                    let step = handle_payloads(rooms, room_id, user_id, message);
                    let ghost taken = step;
                    let action = match step {
                        BroadcastStep::Deliver(fan_out) => Action::Broadcast(fan_out),
                        BroadcastStep::Discarded => Action::Nothing,
                        BroadcastStep::Closed => Action::Nothing,
                    };
                    assert(broadcast_step(old(rooms)@, room_id, user_id, message, taken, rooms@));
                    (Connection::Joined { room_id, user_id }, action)
                },
            }
        },
        Connection::Closed => (Connection::Closed, Action::Nothing),
    }
}

} // verus!
