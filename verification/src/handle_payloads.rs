//! The broadcast handler: what a member of a room may do.

use crate::canvas::{draw_on, Cells};
use crate::fanout::{FanOut, FanOutView};
use crate::payload::{ClientPayload, Inbound, ServerPayload};
use crate::registry::{cleared, drawn, Registry, RegistryView};
use crate::room::RoomView;
use vstd::prelude::*;

verus! {

/// How the broadcast handler went on after one inbound message.
pub enum BroadcastStep {
    /// The canvas was changed and the event is to be delivered to every
    /// member of the room.
    Deliver(FanOut),
    /// The message was dropped.
    Discarded,
    /// The stream ended: the member is to leave the room.
    Closed,
}

/// Whether `fan_out` is the delivery of `event` to the members of the room
/// `room_id` of `rooms`, each member once, none yet attempted.
pub open spec fn delivers_to_room<S>(
    fan_out: FanOutView,
    event: ServerPayload,
    rooms: RegistryView<S>,
    room_id: u128,
) -> bool {
    &&& fan_out.event == event
    &&& fan_out.outcomes.len() == 0
    &&& fan_out.recipients.no_duplicates()
    &&& fan_out.recipients.to_set() == rooms[room_id].users.dom()
}

/// Whether `step` and the registry `after` are what the broadcast handler
/// makes of `message` from the member `user_id` of the room `room_id` on the
/// registry `before`.
pub open spec fn broadcast_step<S>(
    before: RegistryView<S>,
    room_id: u128,
    user_id: u128,
    message: Inbound,
    step: BroadcastStep,
    after: RegistryView<S>,
) -> bool {
    match message {
        Inbound::Payload(ClientPayload::Draw(pixel)) => {
            &&& after == drawn(before, room_id, pixel)
            &&& step matches BroadcastStep::Deliver(fan_out)
            &&& delivers_to_room(fan_out@, ServerPayload::Draw { user_id, pixel }, before, room_id)
        },
        Inbound::Payload(ClientPayload::Reset) => {
            &&& after == cleared(before, room_id)
            &&& step matches BroadcastStep::Deliver(fan_out)
            &&& delivers_to_room(fan_out@, ServerPayload::Reset(user_id), before, room_id)
        },
        Inbound::Payload(ClientPayload::CreateRoom) | Inbound::Payload(ClientPayload::JoinRoom(_))
        | Inbound::Malformed => {
            &&& after == before
            &&& step is Discarded
        },
        Inbound::Closed => {
            &&& after == before
            &&& step is Closed
        },
    }
}

/// Whether `message` changes a canvas, which requires the room to exist.
pub open spec fn needs_room(message: Inbound) -> bool {
    message matches Inbound::Payload(payload) && (payload is Draw || payload is Reset)
}

/// Whether the registry has what handling `message` for a member of the
/// room `room_id` requires.
pub fn ready_for<S>(rooms: &Registry<S>, room_id: u128, message: Inbound) -> (ready: bool)
    ensures
        ready == (needs_room(message) ==> rooms@.contains_key(room_id)),
{
    match message {
        Inbound::Payload(ClientPayload::Draw(_)) | Inbound::Payload(ClientPayload::Reset) => {
            rooms.contains_room(room_id)
        },
        _ => true,
    }
}

/// Handles one inbound message of the member `user_id` of the room
/// `room_id`.
///
/// `Draw` changes one cell of the room's canvas and `Reset` unsets them all;
/// either is then to be delivered to every member of the room, the author
/// included, tagged with the author. Anything else is dropped.
pub fn handle_payloads<S>(
    rooms: &mut Registry<S>,
    room_id: u128,
    user_id: u128,
    message: Inbound,
) -> (step: BroadcastStep)
    requires
        needs_room(message) ==> old(rooms)@.contains_key(room_id),
    ensures
        broadcast_step(old(rooms)@, room_id, user_id, message, step, final(rooms)@),
        old(rooms).wf() ==> final(rooms).wf(),
{
    match message {
        Inbound::Payload(ClientPayload::Draw(pixel)) => {
            rooms.draw(room_id, pixel);
            let recipients = rooms.members(room_id);
            BroadcastStep::Deliver(FanOut::new(ServerPayload::Draw { user_id, pixel }, recipients))
        },
        Inbound::Payload(ClientPayload::Reset) => {
            rooms.reset(room_id);
            let recipients = rooms.members(room_id);
            BroadcastStep::Deliver(FanOut::new(ServerPayload::Reset(user_id), recipients))
        },
        Inbound::Payload(_) | Inbound::Malformed => BroadcastStep::Discarded,
        Inbound::Closed => BroadcastStep::Closed,
    }
}

/// What a canvas holds after a member's payload was handled.
pub open spec fn canvas_after(cells: Cells, payload: ClientPayload) -> Cells {
    match payload {
        ClientPayload::Draw(pixel) => draw_on(cells, pixel),
        ClientPayload::Reset => Cells::empty(),
        ClientPayload::CreateRoom => cells,
        ClientPayload::JoinRoom(_) => cells,
    }
}

/// What a canvas holds after the payloads of its room's members were
/// handled, first to last.
pub open spec fn canvas_after_all(cells: Cells, payloads: Seq<ClientPayload>) -> Cells
    decreases payloads.len(),
{
    if payloads.len() == 0 {
        cells
    } else {
        canvas_after(canvas_after_all(cells, payloads.drop_last()), payloads.last())
    }
}

/// The broadcast handler changes the canvas of the member's room as
/// [`canvas_after`] says, and nothing else in the registry.
pub proof fn lemma_step_changes_one_canvas<S>(
    before: RegistryView<S>,
    room_id: u128,
    user_id: u128,
    payload: ClientPayload,
    step: BroadcastStep,
    after: RegistryView<S>,
)
    requires
        before.contains_key(room_id),
        broadcast_step(before, room_id, user_id, Inbound::Payload(payload), step, after),
    ensures
        after == before.insert(
            room_id,
            RoomView { pixels: canvas_after(before[room_id].pixels, payload), ..before[room_id] },
        ),
{
}

/// After a `Reset` the canvas holds what the payloads after it make of an
/// empty canvas: nothing that was drawn before the `Reset` is left.
pub proof fn lemma_reset_forgets(cells: Cells, payloads: Seq<ClientPayload>, i: int)
    requires
        0 <= i < payloads.len(),
        payloads[i] is Reset,
    ensures
        canvas_after_all(cells, payloads) == canvas_after_all(
            Cells::empty(),
            payloads.subrange(i + 1, payloads.len() as int),
        ),
    decreases payloads.len(),
{
    let later = payloads.subrange(i + 1, payloads.len() as int);
    if i < payloads.len() - 1 {
        lemma_reset_forgets(cells, payloads.drop_last(), i);
        assert(later.drop_last() =~= payloads.drop_last().subrange(i + 1, payloads.len() - 1));
        assert(later.last() == payloads.last());
    }
}

/// An event is delivered to every member of the room, the author among
/// them, and to each exactly once: there are as many recipients as
/// members, and no two of them are the same.
pub proof fn lemma_every_member_is_a_recipient<S>(
    fan_out: FanOutView,
    event: ServerPayload,
    rooms: RegistryView<S>,
    room_id: u128,
    member: u128,
)
    requires
        delivers_to_room(fan_out, event, rooms, room_id),
        rooms[room_id].users.contains_key(member),
    ensures
        exists|i: int| 0 <= i < fan_out.recipients.len() && fan_out.recipients[i] == member,
        forall|i: int, j: int|
            0 <= i < fan_out.recipients.len() && 0 <= j < fan_out.recipients.len()
                && fan_out.recipients[i] == member && fan_out.recipients[j] == member ==> i == j,
        fan_out.recipients.len() == rooms[room_id].users.len(),
{
    assert(fan_out.recipients.to_set().contains(member));
    fan_out.recipients.unique_seq_to_set();
}

} // verus!
