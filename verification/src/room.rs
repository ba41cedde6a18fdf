//! A room: one canvas and the members that draw on it.

use crate::canvas::{coloured_cells, to_pixel_vec, Canvas, Cells};
use crate::pixel::Pixel;
use std::collections::HashMap;
use vstd::prelude::*;
use vstd::std_specs::hash::*;
use vstd::std_specs::iter::IteratorSpec;

verus! {

broadcast use group_hash_axioms;

/// A room as its members see it when they join: its identifier and the set
/// cells of its canvas.
#[derive(Debug, PartialEq, Eq)]
pub struct RoomSnapshot {
    pub id: u128,
    pub pixels: Vec<Pixel>,
}

impl RoomSnapshot {
    /// Whether this snapshot shows the room `id` with exactly the set cells
    /// of `cells`, each listed once.
    pub open spec fn shows(&self, id: u128, cells: Cells) -> bool {
        &&& self.id == id
        &&& self.pixels@.no_duplicates()
        &&& self.pixels@.to_set() == coloured_cells(cells)
    }
}

/// A room: its identifier, its canvas, and for each member the sink through
/// which messages reach that member.
pub struct Room<S> {
    pub id: u128,
    pub pixels: Canvas,
    pub users: HashMap<u128, S>,
}

/// The mathematical model of a room.
pub struct RoomView<S> {
    pub id: u128,
    pub pixels: Cells,
    pub users: Map<u128, S>,
}

impl<S> View for Room<S> {
    type V = RoomView<S>;

    open spec fn view(&self) -> RoomView<S> {
        RoomView { id: self.id, pixels: self.pixels@, users: self.users@ }
    }
}

impl<S> Room<S> {
    /// A room with an empty canvas whose only member is `user_id`.
    pub fn new(id: u128, user_id: u128, sink: S) -> (room: Room<S>)
        ensures
            room@ == (RoomView { id, pixels: Cells::empty(), users: Map::empty().insert(user_id, sink) }),
    {
        let mut users: HashMap<u128, S> = HashMap::new();
        users.insert(user_id, sink);
        Room { id, pixels: Canvas::new(), users }
    }

    /// The room as a joining member is to see it.
    pub fn snapshot(&self) -> (snapshot: RoomSnapshot)
        ensures
            snapshot.shows(self@.id, self@.pixels),
    {
        RoomSnapshot { id: self.id, pixels: to_pixel_vec(&self.pixels) }
    }

    /// The members of the room, each once, in no particular order.
    pub fn members(&self) -> (members: Vec<u128>)
        ensures
            members@.no_duplicates(),
            members@.to_set() == self@.users.dom(),
    {
        let mut members: Vec<u128> = Vec::new();
        let ghost keys = spec_keys_iter(&self.users).remaining();
        for user_id in ids: self.users.keys()
            invariant
                ids.seq() == keys,
                members@.len() == ids.index(),
                forall|j: int| 0 <= j < members@.len() ==> members@[j] == *ids.seq()[j],
        {
            members.push(*user_id);
        }
        assert(members@ =~= keys.unref());
        members
    }
}

} // verus!
