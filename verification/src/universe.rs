use vstd::prelude::*;

use crate::Element;
use crate::constants::BOUNDARY;
use crate::constants::NUM_CELLS;

verus! {

/// One addressable grid slot: the material occupying it and the optional
/// opaque handle of the external renderable object mirroring it. The
/// handle is never owned here; it is only stored so callers can retire or
/// reposition the matching visual object.
#[derive(Clone, Copy)]
pub struct Cell {
    pub element: Element,
    pub eid: Option<u64>,
}

impl Cell {
    pub fn new(element: Element, eid: Option<u64>) -> (c: Cell)
        ensures
            c.element == element,
            c.eid == eid,
    {
        Cell { element, eid }
    }
}

/// The cell an unused grid slot holds: no material, no visual handle.
pub open spec fn empty_cell() -> Cell {
    Cell { element: Element::Empty, eid: None }
}

/// A coordinate addresses a grid slot iff both axes are strictly inside
/// the boundary walls at `BOUNDARY` and `-BOUNDARY`.
pub open spec fn in_world(x: int, y: int) -> bool {
    &&& -(BOUNDARY as int) < x < BOUNDARY as int
    &&& -(BOUNDARY as int) < y < BOUNDARY as int
}

/// Run-time form of `in_world`.
pub fn in_bounds(x: i32, y: i32) -> (r: bool)
    ensures
        r == in_world(x as int, y as int),
{
    -BOUNDARY < x && x < BOUNDARY && -BOUNDARY < y && y < BOUNDARY
}

/// The affine transform from a world coordinate to its slot in the
/// backing array: row-major over the square of side `2 * BOUNDARY - 1`.
pub open spec fn spec_index_from_xy(x: int, y: int) -> int {
    (x + BOUNDARY - 1) + (2 * BOUNDARY - 1) * (y + BOUNDARY - 1)
}

/// The cell a grid holds at a world coordinate.
pub open spec fn cell_at(g: Seq<Cell>, x: int, y: int) -> Cell {
    g[spec_index_from_xy(x, y)]
}

/// Empty cells hold no visual handle. The placement and movement
/// operations all preserve this, so a caller never finds a stale handle
/// under an empty cell.
pub open spec fn handles_consistent(g: Seq<Cell>) -> bool {
    forall|i: int|
        0 <= i < g.len() && (#[trigger] g[i]).element is Empty ==> g[i].eid is None
}

/// Error for the one boundary-checking entry point: the coordinate maps
/// outside the backing array.
#[derive(Clone, Copy, Debug, PartialEq, Eq, Structural)]
pub enum GridError {
    OutOfBounds,
}

/// The grid store: a fixed-size dense array of cells covering every
/// integer coordinate strictly inside the boundary. It is the single
/// source of truth for what occupies each location.
pub struct Universe {
    cells: Vec<Cell>,
}

impl View for Universe {
    type V = Seq<Cell>;

    closed spec fn view(&self) -> Seq<Cell> {
        self.cells@
    }
}

impl Universe {
    /// The backing array covers exactly the addressable coordinates.
    pub open spec fn wf(self) -> bool {
        self@.len() == NUM_CELLS
    }

    pub open spec fn spec_cell_at(self, x: int, y: int) -> Cell {
        cell_at(self@, x, y)
    }

    pub fn new() -> (u: Universe)
        ensures
            u.wf(),
            forall|i: int| 0 <= i < NUM_CELLS ==> u@[i] == empty_cell(),
    {
        let mut cells: Vec<Cell> = Vec::new();
        let mut i: usize = 0;
        while i < NUM_CELLS
            invariant
                i <= NUM_CELLS,
                cells@.len() == i,
                forall|j: int| 0 <= j < i ==> cells@[j] == empty_cell(),
            decreases NUM_CELLS - i,
        {
            cells.push(Cell { element: Element::Empty, eid: None });
            i = i + 1;
        }
        Universe { cells }
    }

    pub fn index_from_xy(x: i32, y: i32) -> (idx: usize)
        requires
            in_world(x as int, y as int),
        ensures
            idx == spec_index_from_xy(x as int, y as int),
            idx < NUM_CELLS,
    {
        let radius = BOUNDARY - 1;
        let shifted_x = (x + radius) as usize;
        let shifted_y = (y + radius) as usize;
        let width = (radius * 2 + 1) as usize;
        assert(width == 129 && shifted_x <= 128 && shifted_y <= 128);
        shifted_x + width * shifted_y
    }

    pub fn element_at_coord(&self, x: i32, y: i32) -> (e: Element)
        requires
            self.wf(),
            in_world(x as int, y as int),
        ensures
            e == self.spec_cell_at(x as int, y as int).element,
    {
        let index = Universe::index_from_xy(x, y);
        self.cells[index].element
    }

    pub fn eid_at_coord(&self, x: i32, y: i32) -> (eid: Option<u64>)
        requires
            self.wf(),
            in_world(x as int, y as int),
        ensures
            eid == self.spec_cell_at(x as int, y as int).eid,
    {
        let index = Universe::index_from_xy(x, y);
        self.cells[index].eid
    }

    pub fn cell_at_coord(&self, x: i32, y: i32) -> (c: Cell)
        requires
            self.wf(),
            in_world(x as int, y as int),
        ensures
            c == self.spec_cell_at(x as int, y as int),
    {
        let index = Universe::index_from_xy(x, y);
        self.cells[index]
    }

    /// The single boundary-checking entry point: callers that cannot
    /// guarantee a coordinate is inside the world go through this and get
    /// an explicit error instead.
    pub fn try_cell_at_coord(&self, x: i32, y: i32) -> (r: Result<Cell, GridError>)
        requires
            self.wf(),
        ensures
            in_world(x as int, y as int) ==> (r matches Ok(c)
                && c == self.spec_cell_at(x as int, y as int)),
            !in_world(x as int, y as int) ==> (r matches Err(e) && e == GridError::OutOfBounds),
    {
        if in_bounds(x, y) {
            Ok(self.cell_at_coord(x, y))
        } else {
            Err(GridError::OutOfBounds)
        }
    }

    pub fn set_element_at_coord(&mut self, x: i32, y: i32, element: Element)
        requires
            old(self).wf(),
            in_world(x as int, y as int),
        ensures
            final(self).wf(),
            final(self)@ == old(self)@.update(
                spec_index_from_xy(x as int, y as int),
                Cell { element, eid: old(self).spec_cell_at(x as int, y as int).eid },
            ),
    {
        let index = Universe::index_from_xy(x, y);
        let eid = self.cells[index].eid;
        self.cells[index] = Cell { element, eid };
    }

    pub fn set_eid_at_coord(&mut self, x: i32, y: i32, eid: Option<u64>)
        requires
            old(self).wf(),
            in_world(x as int, y as int),
        ensures
            final(self).wf(),
            final(self)@ == old(self)@.update(
                spec_index_from_xy(x as int, y as int),
                Cell { element: old(self).spec_cell_at(x as int, y as int).element, eid },
            ),
    {
        let index = Universe::index_from_xy(x, y);
        let element = self.cells[index].element;
        self.cells[index] = Cell { element, eid };
    }

    pub fn set_cell_at_coord(&mut self, x: i32, y: i32, cell: Cell)
        requires
            old(self).wf(),
            in_world(x as int, y as int),
        ensures
            final(self).wf(),
            final(self)@ == old(self)@.update(spec_index_from_xy(x as int, y as int), cell),
    {
        let index = Universe::index_from_xy(x, y);
        self.cells[index] = cell;
    }

    pub fn remove_eid_at_coord(&mut self, x: i32, y: i32)
        requires
            old(self).wf(),
            in_world(x as int, y as int),
        ensures
            final(self).wf(),
            final(self)@ == old(self)@.update(
                spec_index_from_xy(x as int, y as int),
                Cell { element: old(self).spec_cell_at(x as int, y as int).element, eid: None },
            ),
    {
        let index = Universe::index_from_xy(x, y);
        let element = self.cells[index].element;
        self.cells[index] = Cell { element, eid: None };
    }
}

/// The coordinate the boundary-wall builder produces at position `k`:
/// first the two vertical walls, bottom to top, right wall before left at
/// each row; then the two horizontal walls, left to right, top wall
/// before bottom at each column, corners excluded.
pub open spec fn spec_boundary_coordinate(k: int) -> (int, int) {
    let b = BOUNDARY as int;
    if k < 2 * (2 * b + 1) {
        let y = -b + k / 2;
        if k % 2 == 0 {
            (b, y)
        } else {
            (-b, y)
        }
    } else {
        let k2 = k - 2 * (2 * b + 1);
        let x = -(b - 1) + k2 / 2;
        if k2 % 2 == 0 {
            (x, b)
        } else {
            (x, -b)
        }
    }
}

/// The full run of wall coordinates around the world, for the caller to
/// place immovable boundary particles on: both vertical walls over every
/// row including the corners, then both horizontal walls over the
/// remaining columns.
pub fn boundary_coordinates() -> (r: Vec<(i32, i32)>)
    ensures
        r@.len() == 8 * BOUNDARY as int,
        forall|k: int|
            0 <= k < r@.len() ==> ((#[trigger] r@[k]).0 as int, r@[k].1 as int)
                == spec_boundary_coordinate(k),
{
    let mut r: Vec<(i32, i32)> = Vec::new();
    let mut pos_y: i32 = -BOUNDARY;
    while pos_y <= BOUNDARY
        invariant
            -BOUNDARY <= pos_y <= BOUNDARY + 1,
            r@.len() == 2 * (pos_y + BOUNDARY),
            forall|k: int|
                0 <= k < r@.len() ==> ((#[trigger] r@[k]).0 as int, r@[k].1 as int)
                    == spec_boundary_coordinate(k),
        decreases BOUNDARY + 1 - pos_y,
    {
        r.push((BOUNDARY, pos_y));
        r.push((-BOUNDARY, pos_y));
        proof {
            let k = 2 * (pos_y + BOUNDARY as int);
            assert(k / 2 == pos_y + BOUNDARY as int && k % 2 == 0);
            assert((k + 1) / 2 == pos_y + BOUNDARY as int && (k + 1) % 2 == 1);
        }
        pos_y = pos_y + 1;
    }
    let mut pos_x: i32 = -(BOUNDARY - 1);
    while pos_x < BOUNDARY
        invariant
            -(BOUNDARY - 1) <= pos_x <= BOUNDARY,
            r@.len() == 2 * (2 * BOUNDARY as int + 1) + 2 * (pos_x + BOUNDARY - 1),
            forall|k: int|
                0 <= k < r@.len() ==> ((#[trigger] r@[k]).0 as int, r@[k].1 as int)
                    == spec_boundary_coordinate(k),
        decreases BOUNDARY - pos_x,
    {
        r.push((pos_x, BOUNDARY));
        r.push((pos_x, -BOUNDARY));
        proof {
            let k2 = 2 * (pos_x + BOUNDARY as int - 1);
            assert(k2 / 2 == pos_x + BOUNDARY as int - 1 && k2 % 2 == 0);
            assert((k2 + 1) / 2 == pos_x + BOUNDARY as int - 1 && (k2 + 1) % 2 == 1);
        }
        pos_x = pos_x + 1;
    }
    r
}

/// The coordinated double-write that moves a particle: the origin cell
/// becomes empty and the target cell takes over the origin's material and
/// visual handle. Whatever the target held before is overwritten.
pub open spec fn spec_move_cell(g: Seq<Cell>, fx: int, fy: int, tx: int, ty: int) -> Seq<Cell> {
    g.update(spec_index_from_xy(fx, fy), empty_cell()).update(
        spec_index_from_xy(tx, ty),
        cell_at(g, fx, fy),
    )
}

/// What a move leaves behind: the origin empty, the target holding the
/// moved cell, and every other coordinate untouched.
pub proof fn lemma_move_cell_effect(g: Seq<Cell>, fx: int, fy: int, tx: int, ty: int)
    requires
        g.len() == NUM_CELLS,
        in_world(fx, fy),
        in_world(tx, ty),
        (fx, fy) != (tx, ty),
    ensures
        spec_move_cell(g, fx, fy, tx, ty).len() == NUM_CELLS,
        cell_at(spec_move_cell(g, fx, fy, tx, ty), fx, fy) == empty_cell(),
        cell_at(spec_move_cell(g, fx, fy, tx, ty), tx, ty) == cell_at(g, fx, fy),
        forall|x: int, y: int|
            in_world(x, y) && (x, y) != (fx, fy) && (x, y) != (tx, ty)
                ==> cell_at(#[trigger] spec_move_cell(g, fx, fy, tx, ty), x, y) == cell_at(g, x, y),
{
    lemma_index_distinct(fx, fy, tx, ty);
    lemma_index_in_range(fx, fy);
    lemma_index_in_range(tx, ty);
    assert forall|x: int, y: int|
        in_world(x, y) && (x, y) != (fx, fy) && (x, y) != (tx, ty)
            implies cell_at(#[trigger] spec_move_cell(g, fx, fy, tx, ty), x, y) == cell_at(g, x, y)
    by {
        lemma_index_distinct(x, y, fx, fy);
        lemma_index_distinct(x, y, tx, ty);
        lemma_index_in_range(x, y);
    }
}

/// Contrapositive of injectivity: distinct world coordinates use distinct
/// slots.
pub proof fn lemma_index_distinct(x1: int, y1: int, x2: int, y2: int)
    requires
        in_world(x1, y1),
        in_world(x2, y2),
        (x1, y1) != (x2, y2),
    ensures
        spec_index_from_xy(x1, y1) != spec_index_from_xy(x2, y2),
{
    if spec_index_from_xy(x1, y1) == spec_index_from_xy(x2, y2) {
        lemma_index_injective(x1, y1, x2, y2);
    }
}

/// A move never plants a visual handle under an empty cell: the origin is
/// written bare, and the target keeps the origin's pairing of material and
/// handle.
pub proof fn lemma_move_cell_handles(g: Seq<Cell>, fx: int, fy: int, tx: int, ty: int)
    requires
        g.len() == NUM_CELLS,
        in_world(fx, fy),
        in_world(tx, ty),
        handles_consistent(g),
    ensures
        handles_consistent(spec_move_cell(g, fx, fy, tx, ty)),
{
    lemma_index_in_range(fx, fy);
    lemma_index_in_range(tx, ty);
}

/// The coordinate transform never sends two world coordinates to the same
/// slot.
pub proof fn lemma_index_injective(x1: int, y1: int, x2: int, y2: int)
    requires
        in_world(x1, y1),
        in_world(x2, y2),
        spec_index_from_xy(x1, y1) == spec_index_from_xy(x2, y2),
    ensures
        x1 == x2,
        y1 == y2,
{
    assert(2 * BOUNDARY as int - 1 == 129);
    assert(spec_index_from_xy(x1, y1) == (x1 + 64) + 129 * (y1 + 64));
    assert(spec_index_from_xy(x2, y2) == (x2 + 64) + 129 * (y2 + 64));
}

/// Every world coordinate maps into the backing array.
pub proof fn lemma_index_in_range(x: int, y: int)
    requires
        in_world(x, y),
    ensures
        0 <= spec_index_from_xy(x, y) < NUM_CELLS,
{
    assert(2 * BOUNDARY as int - 1 == 129);
    assert(spec_index_from_xy(x, y) == (x + 64) + 129 * (y + 64));
}

/// Every slot of the backing array is hit by some world coordinate, so
/// the transform's image is exactly the array's index range.
pub proof fn lemma_index_surjective(i: int)
    requires
        0 <= i < NUM_CELLS,
    ensures
        exists|p: (int, int)|
            in_world(p.0, p.1) && spec_index_from_xy(p.0, p.1) == i,
{
    let p = (i % 129 - 64, i / 129 - 64);
    vstd::arithmetic::div_mod::lemma_fundamental_div_mod(i, 129);
    vstd::arithmetic::div_mod::lemma_mod_bound(i, 129);
    assert(2 * BOUNDARY as int - 1 == 129);
    assert(spec_index_from_xy(p.0, p.1) == (p.0 + 64) + 129 * (p.1 + 64));
    assert(in_world(p.0, p.1) && spec_index_from_xy(p.0, p.1) == i);
}

} // verus!
