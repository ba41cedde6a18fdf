//! The table of all rooms that currently have members.

use crate::canvas::{draw_on, no_clear_cell, Cells};
use crate::pixel::Pixel;
use crate::room::{Room, RoomSnapshot, RoomView};
use std::collections::hash_map::Entry;
use std::collections::HashMap;
use vstd::prelude::*;
use vstd::std_specs::hash::*;

verus! {

broadcast use group_hash_axioms;

/// The mathematical model of a registry: the rooms by their identifiers.
pub type RegistryView<S> = Map<u128, RoomView<S>>;

/// The registry after a room `room_id` was created for its first member.
pub open spec fn created<S>(
    rooms: RegistryView<S>,
    room_id: u128,
    user_id: u128,
    sink: S,
) -> RegistryView<S> {
    rooms.insert(
        room_id,
        RoomView { id: room_id, pixels: Cells::empty(), users: Map::empty().insert(user_id, sink) },
    )
}

/// The registry after `user_id` joined the room `room_id`; unchanged if
/// there is no such room.
pub open spec fn joined<S>(
    rooms: RegistryView<S>,
    room_id: u128,
    user_id: u128,
    sink: S,
) -> RegistryView<S> {
    if rooms.contains_key(room_id) {
        let room = rooms[room_id];
        rooms.insert(room_id, RoomView { users: room.users.insert(user_id, sink), ..room })
    } else {
        rooms
    }
}

/// The registry after `user_id` left the room `room_id`: a room without
/// members is dropped.
pub open spec fn left<S>(rooms: RegistryView<S>, room_id: u128, user_id: u128) -> RegistryView<S> {
    if rooms.contains_key(room_id) {
        let room = rooms[room_id];
        let users = room.users.remove(user_id);
        if users.is_empty() {
            rooms.remove(room_id)
        } else {
            rooms.insert(room_id, RoomView { users, ..room })
        }
    } else {
        rooms
    }
}

/// The registry after `pixel` was drawn in the room `room_id`; unchanged
/// if there is no such room.
pub open spec fn drawn<S>(rooms: RegistryView<S>, room_id: u128, pixel: Pixel) -> RegistryView<S> {
    if rooms.contains_key(room_id) {
        let room = rooms[room_id];
        rooms.insert(room_id, RoomView { pixels: draw_on(room.pixels, pixel), ..room })
    } else {
        rooms
    }
}

/// The registry after the canvas of the room `room_id` was reset;
/// unchanged if there is no such room.
pub open spec fn cleared<S>(rooms: RegistryView<S>, room_id: u128) -> RegistryView<S> {
    if rooms.contains_key(room_id) {
        let room = rooms[room_id];
        rooms.insert(room_id, RoomView { pixels: Cells::empty(), ..room })
    } else {
        rooms
    }
}

/// The invariant of a registry: every room in it stands under its own
/// identifier, has at least one member, and keeps no cell as `Clear`.
pub open spec fn rooms_wf<S>(rooms: RegistryView<S>) -> bool {
    forall|id: u128| #[trigger]
        rooms.contains_key(id) ==> {
            &&& rooms[id].id == id
            &&& rooms[id].users.dom().finite()
            &&& rooms[id].users.len() > 0
            &&& no_clear_cell(rooms[id].pixels)
        }
}

/// The registry of rooms.
pub struct Registry<S> {
    rooms: HashMap<u128, Room<S>>,
}

impl<S> View for Registry<S> {
    type V = RegistryView<S>;

    closed spec fn view(&self) -> RegistryView<S> {
        Map::new(|id: u128| self.rooms@.contains_key(id), |id: u128| self.rooms@[id]@)
    }
}

/// What was asked for is not in the registry. The sink that was offered is
/// handed back.
pub struct RoomNotFound<S> {
    pub sink: S,
}

impl<S> Registry<S> {
    /// The invariant of a registry, see [`rooms_wf`].
    pub open spec fn wf(&self) -> bool {
        rooms_wf(self@)
    }

    /// A registry without rooms.
    pub fn new() -> (registry: Registry<S>)
        ensures
            registry@ == RegistryView::<S>::empty(),
            registry.wf(),
    {
        Registry { rooms: HashMap::new() }
    }

    /// Creates the room `room_id` with an empty canvas and `user_id` as its
    /// only member. A room that had this identifier is replaced.
    pub fn create_room(&mut self, room_id: u128, user_id: u128, sink: S)
        ensures
            final(self)@ == created(old(self)@, room_id, user_id, sink),
            old(self).wf() ==> final(self).wf(),
    {
        self.rooms.insert(room_id, Room::new(room_id, user_id, sink));
        assert(self@ =~= created(old(self)@, room_id, user_id, sink));
    }

    /// Adds `user_id` to the room `room_id` and returns the room as it is at
    /// that moment.
    pub fn join_room(&mut self, room_id: u128, user_id: u128, sink: S) -> (result: Result<
        RoomSnapshot,
        RoomNotFound<S>,
    >)
        ensures
            final(self)@ == joined(old(self)@, room_id, user_id, sink),
            old(self).wf() ==> final(self).wf(),
            match result {
                Ok(snapshot) => old(self)@.contains_key(room_id) && snapshot.shows(
                    old(self)@[room_id].id,
                    old(self)@[room_id].pixels,
                ),
                Err(e) => !old(self)@.contains_key(room_id) && e.sink == sink,
            },
    {
        match self.rooms.entry(room_id) {
            Entry::Occupied(mut entry) => {
                let room = entry.get_mut();
                let snapshot = room.snapshot();
                room.users.insert(user_id, sink);
                Ok(snapshot)
            },
            Entry::Vacant(_) => Err(RoomNotFound { sink }),
        }
    }

    /// Removes `user_id` from the room `room_id` and hands out its sink. A
    /// room that is left without members is removed.
    pub fn remove_user(&mut self, room_id: u128, user_id: u128) -> (sink: Option<S>)
        ensures
            final(self)@ == left(old(self)@, room_id, user_id),
            old(self).wf() ==> final(self).wf(),
            sink == (if old(self)@.contains_key(room_id) {
                old(self)@[room_id].users.get(user_id)
            } else {
                None
            }),
    {
        match self.rooms.entry(room_id) {
            Entry::Occupied(mut entry) => {
                let sink = entry.get_mut().users.remove(&user_id);
                if entry.get().users.is_empty() {
                    entry.remove();
                }
                sink
            },
            Entry::Vacant(_) => None,
        }
    }

    /// Whether the room `room_id` exists.
    pub fn contains_room(&self, room_id: u128) -> (found: bool)
        ensures
            found == self@.contains_key(room_id),
    {
        self.rooms.contains_key(&room_id)
    }

    /// The room `room_id`, if it exists.
    pub fn room(&self, room_id: u128) -> (room: Option<&Room<S>>)
        ensures
            match room {
                Some(room) => self@.contains_key(room_id) && room@ == self@[room_id],
                None => !self@.contains_key(room_id),
            },
    {
        self.rooms.get(&room_id)
    }

    /// The number of rooms.
    pub fn len(&self) -> (n: usize)
        ensures
            n == self@.len(),
            self@.dom().finite(),
    {
        assert(self@.dom() =~= self.rooms@.dom());
        self.rooms.len()
    }

    /// Draws `pixel` on the canvas of the room `room_id`.
    pub fn draw(&mut self, room_id: u128, pixel: Pixel)
        ensures
            final(self)@ == drawn(old(self)@, room_id, pixel),
            old(self).wf() ==> final(self).wf(),
    {
        match self.rooms.entry(room_id) {
            Entry::Occupied(mut entry) => {
                entry.get_mut().pixels.draw(pixel);
            },
            Entry::Vacant(_) => {
                assert(self@ =~= old(self)@);
            },
        }
    }

    /// Resets the canvas of the room `room_id`.
    pub fn reset(&mut self, room_id: u128)
        ensures
            final(self)@ == cleared(old(self)@, room_id),
            old(self).wf() ==> final(self).wf(),
    {
        match self.rooms.entry(room_id) {
            Entry::Occupied(mut entry) => {
                entry.get_mut().pixels.reset();
            },
            Entry::Vacant(_) => {
                assert(self@ =~= old(self)@);
            },
        }
    }

    /// The members of the room `room_id`, each once, in no particular order;
    /// none if there is no such room.
    pub fn members(&self, room_id: u128) -> (members: Vec<u128>)
        ensures
            members@.no_duplicates(),
            members@.to_set() == (if self@.contains_key(room_id) {
                self@[room_id].users.dom()
            } else {
                Set::empty()
            }),
    {
        match self.rooms.get(&room_id) {
            Some(room) => room.members(),
            None => Vec::new(),
        }
    }
}

/// Every operation keeps the invariant of the registry.
pub proof fn lemma_operations_keep_invariant<S>(
    rooms: RegistryView<S>,
    room_id: u128,
    user_id: u128,
    sink: S,
    pixel: Pixel,
)
    requires
        rooms_wf(rooms),
    ensures
        rooms_wf(created(rooms, room_id, user_id, sink)),
        rooms_wf(joined(rooms, room_id, user_id, sink)),
        rooms_wf(left(rooms, room_id, user_id)),
        rooms_wf(drawn(rooms, room_id, pixel)),
        rooms_wf(cleared(rooms, room_id)),
{
    assert(Map::<u128, S>::empty().insert(user_id, sink).dom() =~= set![user_id]);
    if rooms.contains_key(room_id) {
        let rest = rooms[room_id].users.remove(user_id);
        if rest.len() == 0 {
            assert(rest.dom() =~= Set::empty());
        }
    }
}

/// A room is in the registry exactly as long as it has a member: it has one
/// while it is there, and it is there after a member left if and only if
/// another member is left.
pub proof fn lemma_room_exists_while_it_has_members<S>(
    rooms: RegistryView<S>,
    room_id: u128,
    user_id: u128,
)
    requires
        rooms_wf(rooms),
    ensures
        rooms.contains_key(room_id) ==> rooms[room_id].users.len() > 0,
        left(rooms, room_id, user_id).contains_key(room_id) <==> rooms.contains_key(room_id)
            && exists|other: u128| other != user_id && rooms[room_id].users.contains_key(other),
{
    if rooms.contains_key(room_id) {
        let rest = rooms[room_id].users.remove(user_id);
        if rest.is_empty() {
            assert forall|other: u128| other != user_id implies !rooms[room_id].users.contains_key(
                other,
            ) by {
                assert(!rest.dom().contains(other));
            }
        } else {
            if forall|k: u128| !rest.dom().contains(k) {
                assert(rest.dom() =~= Set::empty());
            }
            let other = choose|other: u128| rest.dom().contains(other);
            assert(other != user_id && rooms[room_id].users.contains_key(other));
        }
    }
}

/// Once its only member has left, a room is gone: joining it is refused and
/// changes nothing, until a room is created under that identifier again.
pub proof fn lemma_vacated_room_is_gone<S>(
    rooms: RegistryView<S>,
    room_id: u128,
    user_id: u128,
    late_user: u128,
    late_sink: S,
)
    requires
        rooms.contains_key(room_id),
        forall|other: u128| rooms[room_id].users.contains_key(other) ==> other == user_id,
    ensures
        !left(rooms, room_id, user_id).contains_key(room_id),
        joined(left(rooms, room_id, user_id), room_id, late_user, late_sink) == left(
            rooms,
            room_id,
            user_id,
        ),
{
    assert(rooms[room_id].users.remove(user_id).dom() =~= Set::empty());
}

/// A member that has left is a member no more.
pub proof fn lemma_left_member_is_gone<S>(rooms: RegistryView<S>, room_id: u128, user_id: u128)
    ensures
        left(rooms, room_id, user_id).contains_key(room_id) ==> !left(
            rooms,
            room_id,
            user_id,
        )[room_id].users.contains_key(user_id),
{
}

/// A registry without rooms refuses every join.
pub proof fn lemma_unknown_room_is_refused<S>(room_id: u128, user_id: u128, sink: S)
    ensures
        !RegistryView::<S>::empty().contains_key(room_id),
        joined(RegistryView::<S>::empty(), room_id, user_id, sink) == RegistryView::<S>::empty(),
{
}

/// Joining and leaving change no canvas and no room's identifier: what a
/// joining member is shown is what the room holds before and after the
/// join.
pub proof fn lemma_membership_keeps_canvases<S>(
    rooms: RegistryView<S>,
    room_id: u128,
    user_id: u128,
    sink: S,
    other_room: u128,
)
    ensures
        joined(rooms, room_id, user_id, sink).contains_key(other_room) <==> rooms.contains_key(
            other_room,
        ),
        rooms.contains_key(other_room) ==> joined(rooms, room_id, user_id, sink)[other_room].pixels
            == rooms[other_room].pixels && joined(rooms, room_id, user_id, sink)[other_room].id
            == rooms[other_room].id,
        left(rooms, room_id, user_id).contains_key(other_room) ==> left(
            rooms,
            room_id,
            user_id,
        )[other_room].pixels == rooms[other_room].pixels,
{
}

} // verus!
