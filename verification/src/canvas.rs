//! The sparse grid of coloured cells that one room draws on.

use crate::pixel::{Pixel, PixelColour};
use std::collections::HashMap;
use vstd::prelude::*;
use vstd::set_lib::lemma_map_size;
use vstd::std_specs::hash::*;

verus! {

/// The mathematical model of a canvas: the colour of each set cell.
pub type Cells = Map<(u32, u32), PixelColour>;

/// What a canvas holds after `pixel` was drawn on it: the cell takes the
/// pixel's colour, or is unset when that colour is `Clear`.
pub open spec fn draw_on(cells: Cells, pixel: Pixel) -> Cells {
    if pixel.colour == PixelColour::Clear {
        cells.remove((pixel.x, pixel.y))
    } else {
        cells.insert((pixel.x, pixel.y), pixel.colour)
    }
}

/// What a canvas holds after the pixels of `ops` were drawn on it, first to
/// last.
pub open spec fn replay(cells: Cells, ops: Seq<Pixel>) -> Cells
    decreases ops.len(),
{
    if ops.len() == 0 {
        cells
    } else {
        draw_on(replay(cells, ops.drop_last()), ops.last())
    }
}

/// Whether some pixel of `ops` is drawn on `cell`.
pub open spec fn draws_on(ops: Seq<Pixel>, cell: (u32, u32)) -> bool {
    exists|j: int| 0 <= j < ops.len() && #[trigger] ops[j].position() == cell
}

/// The set cells of a canvas, each as the pixel that would draw it.
pub open spec fn coloured_cells(cells: Cells) -> Set<Pixel> {
    Set::new(|p: Pixel| cells.contains_key((p.x, p.y)) && cells[(p.x, p.y)] == p.colour)
}

/// Only visibly coloured cells are kept: no cell is stored as `Clear`.
pub open spec fn no_clear_cell(cells: Cells) -> bool {
    forall|p: (u32, u32)| cells.contains_key(p) ==> #[trigger] cells[p] != PixelColour::Clear
}

/// The key under which the cell `(x, y)` is stored.
spec fn cell_key(x: u32, y: u32) -> u64 {
    (x as u64 * 0x1_0000_0000 + y as u64) as u64
}

/// The cell that is stored under `k`.
spec fn key_cell(k: u64) -> (u32, u32) {
    ((k / 0x1_0000_0000) as u32, (k % 0x1_0000_0000) as u32)
}

/// A sparse grid of coloured cells. A cell that is not stored is unset.
pub struct Canvas {
    cells: HashMap<u64, PixelColour>,
}

impl View for Canvas {
    type V = Cells;

    closed spec fn view(&self) -> Cells {
        Map::new(
            |p: (u32, u32)| self.cells@.contains_key(cell_key(p.0, p.1)),
            |p: (u32, u32)| self.cells@[cell_key(p.0, p.1)],
        )
    }
}

impl Canvas {
    /// The invariant of a canvas: it keeps no cell as `Clear`.
    pub open spec fn wf(&self) -> bool {
        no_clear_cell(self@)
    }

    /// An empty canvas.
    pub fn new() -> (canvas: Canvas)
        ensures
            canvas@ == Cells::empty(),
            canvas.wf(),
    {
        broadcast use group_hash_axioms;

        Canvas { cells: HashMap::new() }
    }

    fn key(x: u32, y: u32) -> (k: u64)
        ensures
            k == cell_key(x, y),
    {
        x as u64 * 0x1_0000_0000 + y as u64
    }

    /// Draws one pixel: sets its cell to its colour, or unsets the cell when
    /// the colour is `Clear`.
    pub fn draw(&mut self, pixel: Pixel)
        ensures
            final(self)@ == draw_on(old(self)@, pixel),
            old(self).wf() ==> final(self).wf(),
    {
        broadcast use group_hash_axioms;

        let k: u64 = Canvas::key(pixel.x, pixel.y);
        if pixel.is_clear() {
            self.cells.remove(&k);
        } else {
            self.cells.insert(k, pixel.colour);
        }
    }

    /// Unsets every cell.
    pub fn reset(&mut self)
        ensures
            final(self)@ == Cells::empty(),
            final(self).wf(),
    {
        broadcast use group_hash_axioms;

        self.cells.clear();
    }

    /// The colour of the cell `(x, y)`, if it is set.
    pub fn get(&self, x: u32, y: u32) -> (colour: Option<PixelColour>)
        ensures
            colour == self@.get((x, y)),
    {
        broadcast use group_hash_axioms;

        let k: u64 = Canvas::key(x, y);
        match self.cells.get(&k) {
            Some(c) => Some(*c),
            None => None,
        }
    }

    /// The number of set cells.
    pub fn len(&self) -> (n: usize)
        ensures
            n == self@.len(),
            self@.dom().finite(),
    {
        broadcast use group_hash_axioms;

        proof {
            let stored = self.cells@.dom();
            let unpack = |k: u64| key_cell(k);
            assert(stored.map(unpack) =~= self@.dom());
            assert(vstd::relations::injective_on(unpack, stored));
            lemma_map_size(stored, self@.dom(), unpack);
        }
        self.cells.len()
    }
}

/// Lists the set cells of a canvas as pixels, each cell once, in no
/// particular order.
pub fn to_pixel_vec(value: &Canvas) -> (pixels: Vec<Pixel>)
    ensures
        pixels@.no_duplicates(),
        pixels@.to_set() == coloured_cells(value@),
{
    broadcast use group_hash_axioms;

    let mut pixels: Vec<Pixel> = Vec::new();
    for (k, colour) in stored: value.cells.iter()
        invariant
            pixels@.len() == stored.index(),
            forall|j: int|
                0 <= j < pixels@.len() ==> cell_key(pixels@[j].x, pixels@[j].y) == *stored.seq()[j].0
                    && pixels@[j].colour == *stored.seq()[j].1,
    {
        let x: u32 = (*k / 0x1_0000_0000) as u32;
        let y: u32 = (*k % 0x1_0000_0000) as u32;
        pixels.push(Pixel { x, y, colour: *colour });
    }
    pixels
}

/// Drawing keeps a canvas free of `Clear` cells.
pub proof fn lemma_draw_keeps_no_clear(cells: Cells, pixel: Pixel)
    requires
        no_clear_cell(cells),
    ensures
        no_clear_cell(draw_on(cells, pixel)),
{
}

/// Replaying keeps a canvas free of `Clear` cells.
pub proof fn lemma_replay_keeps_no_clear(cells: Cells, ops: Seq<Pixel>)
    requires
        no_clear_cell(cells),
    ensures
        no_clear_cell(replay(cells, ops)),
    decreases ops.len(),
{
    if ops.len() > 0 {
        lemma_replay_keeps_no_clear(cells, ops.drop_last());
        lemma_draw_keeps_no_clear(replay(cells, ops.drop_last()), ops.last());
    }
}

/// The last pixel drawn on a cell decides what the cell holds: its colour,
/// or nothing if that colour is `Clear`.
pub proof fn lemma_last_draw_wins(cells: Cells, ops: Seq<Pixel>, i: int)
    requires
        0 <= i < ops.len(),
        forall|j: int| i < j < ops.len() ==> ops[j].position() != ops[i].position(),
    ensures
        replay(cells, ops).get(ops[i].position()) == (if ops[i].colour == PixelColour::Clear {
            None
        } else {
            Some(ops[i].colour)
        }),
    decreases ops.len(),
{
    if i < ops.len() - 1 {
        lemma_last_draw_wins(cells, ops.drop_last(), i);
    }
}

/// A cell on which no pixel is drawn holds what it held before.
pub proof fn lemma_undrawn_cell_is_kept(cells: Cells, ops: Seq<Pixel>, cell: (u32, u32))
    requires
        forall|j: int| 0 <= j < ops.len() ==> ops[j].position() != cell,
    ensures
        replay(cells, ops).get(cell) == cells.get(cell),
    decreases ops.len(),
{
    if ops.len() > 0 {
        lemma_undrawn_cell_is_kept(cells, ops.drop_last(), cell);
    }
}

/// After pixels of visible colours were drawn on an empty canvas, the
/// canvas maps exactly the cells that were drawn on.
pub proof fn lemma_replay_sets_drawn_cells(ops: Seq<Pixel>, cell: (u32, u32))
    requires
        forall|j: int| 0 <= j < ops.len() ==> (#[trigger] ops[j]).colour != PixelColour::Clear,
    ensures
        replay(Cells::empty(), ops).contains_key(cell) <==> draws_on(ops, cell),
    decreases ops.len(),
{
    if ops.len() > 0 {
        let earlier = ops.drop_last();
        lemma_replay_sets_drawn_cells(earlier, cell);
        if ops.last().position() == cell {
            assert(ops[ops.len() - 1].position() == cell);
        } else {
            if draws_on(ops, cell) {
                let j = choose|j: int| 0 <= j < ops.len() && #[trigger] ops[j].position() == cell;
                assert(earlier[j].position() == cell);
            }
            if draws_on(earlier, cell) {
                let j = choose|j: int|
                    0 <= j < earlier.len() && #[trigger] earlier[j].position() == cell;
                assert(ops[j].position() == cell);
            }
        }
    }
}

/// After pixels of visible colours were drawn on an empty canvas, a cell
/// holds the colour of the pixel that was drawn on it last.
pub proof fn lemma_replay_keeps_latest_colour(ops: Seq<Pixel>, i: int)
    requires
        0 <= i < ops.len(),
        ops[i].colour != PixelColour::Clear,
        !draws_on(ops.subrange(i + 1, ops.len() as int), ops[i].position()),
    ensures
        replay(Cells::empty(), ops).contains_key(ops[i].position()),
        replay(Cells::empty(), ops)[ops[i].position()] == ops[i].colour,
{
    let later = ops.subrange(i + 1, ops.len() as int);
    assert forall|j: int| i < j < ops.len() implies ops[j].position() != ops[i].position() by {
        assert(later[j - i - 1].position() != ops[i].position());
    }
    lemma_last_draw_wins(Cells::empty(), ops, i);
}

/// A list of the set cells shows every cell with its colour, shows nothing
/// else, and is as long as the canvas has set cells.
pub proof fn lemma_listed_cells(pixels: Seq<Pixel>, cells: Cells)
    requires
        pixels.no_duplicates(),
        pixels.to_set() == coloured_cells(cells),
        cells.dom().finite(),
    ensures
        forall|p: Pixel|
            pixels.contains(p) <==> cells.contains_key((p.x, p.y)) && cells[(p.x, p.y)] == p.colour,
        pixels.len() == cells.len(),
{
    assert forall|p: Pixel|
        pixels.contains(p) <==> cells.contains_key((p.x, p.y)) && cells[(p.x, p.y)] == p.colour by {
        assert(pixels.contains(p) <==> pixels.to_set().contains(p));
    }
    let paint = |c: (u32, u32)| Pixel { x: c.0, y: c.1, colour: cells[c] };
    assert(cells.dom().map(paint) =~= coloured_cells(cells));
    lemma_map_size(cells.dom(), coloured_cells(cells), paint);
    pixels.unique_seq_to_set();
}

} // verus!
