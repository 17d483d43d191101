use vstd::prelude::*;

use crate::Element;
use crate::constants::THINNING_CHANCE;
use crate::universe::Cell;
use crate::universe::Universe;
use crate::universe::cell_at;
use crate::universe::empty_cell;
use crate::universe::handles_consistent;
use crate::universe::in_bounds;
use crate::universe::in_world;
use crate::universe::lemma_index_in_range;
use crate::universe::spec_index_from_xy;

verus! {

/// What the placement protocol did at one brush coordinate.
#[derive(Clone, Copy, Debug, PartialEq, Eq)]
pub enum PlaceOutcome {
    /// A particle was placed; the handle offered for this coordinate is
    /// now stored in the grid.
    Painted,
    /// An occupied cell was cleared; the handle it held, if any, should
    /// be retired by the caller.
    Erased(Option<u64>),
    /// Nothing changed: out of world, occupied, thinned away, or already
    /// empty.
    Skipped,
}

/// Whether painting material `m` at `(x, y)` with thinning draw `draw`
/// places a particle: the coordinate must be in the world, the cell free,
/// and — for the thinning-eligible material — the draw must succeed.
pub open spec fn spec_paint_allowed(g: Seq<Cell>, m: Element, x: int, y: int, draw: int) -> bool {
    &&& in_world(x, y)
    &&& !(m is Empty)
    &&& cell_at(g, x, y).element is Empty
    &&& (m is Sand ==> draw < THINNING_CHANCE)
}

/// Effect of the placement protocol on one brush coordinate: out-of-world
/// coordinates are skipped, the empty material erases occupied cells, and
/// any other material fills a free cell when the thinning draw allows it.
pub open spec fn spec_place_one(
    g: Seq<Cell>,
    m: Element,
    x: int,
    y: int,
    draw: int,
    handle: u64,
) -> Seq<Cell> {
    if !in_world(x, y) {
        g
    } else if m is Empty {
        if cell_at(g, x, y).element is Empty {
            g
        } else {
            g.update(spec_index_from_xy(x, y), empty_cell())
        }
    } else if spec_paint_allowed(g, m, x, y, draw) {
        g.update(spec_index_from_xy(x, y), Cell { element: m, eid: Some(handle) })
    } else {
        g
    }
}

/// The report the protocol owes the caller for one coordinate.
pub open spec fn spec_place_outcome(
    g: Seq<Cell>,
    m: Element,
    x: int,
    y: int,
    draw: int,
) -> PlaceOutcome {
    if !in_world(x, y) {
        PlaceOutcome::Skipped
    } else if m is Empty {
        if cell_at(g, x, y).element is Empty {
            PlaceOutcome::Skipped
        } else {
            PlaceOutcome::Erased(cell_at(g, x, y).eid)
        }
    } else if spec_paint_allowed(g, m, x, y, draw) {
        PlaceOutcome::Painted
    } else {
        PlaceOutcome::Skipped
    }
}

/// Paint material `m` (not the empty one) onto the cell at `(x, y)`.
/// Occupied cells are never overwritten, so painting over them a second
/// time is a no-op.
pub fn paint_cell(u: &mut Universe, m: Element, x: i32, y: i32, draw: u32, handle: u64) -> (r:
    bool)
    requires
        old(u).wf(),
        in_world(x as int, y as int),
        !(m is Empty),
    ensures
        final(u).wf(),
        r == spec_paint_allowed(old(u)@, m, x as int, y as int, draw as int),
        final(u)@ == spec_place_one(old(u)@, m, x as int, y as int, draw as int, handle),
        !(old(u).spec_cell_at(x as int, y as int).element is Empty) ==> final(u)@ == old(u)@,
        handles_consistent(old(u)@) ==> handles_consistent(final(u)@),
{
    proof {
        lemma_index_in_range(x as int, y as int);
    }
    if u.element_at_coord(x, y) == Element::Empty {
        if !m.is_thinned() || draw < THINNING_CHANCE {
            u.set_cell_at_coord(x, y, Cell::new(m, Some(handle)));
            true
        } else {
            false
        }
    } else {
        false
    }
}

/// Clear the cell at `(x, y)` and hand back the visual handle it held so
/// the caller can retire the matching renderable object. Erasing an
/// already-empty cell changes nothing.
pub fn erase_cell(u: &mut Universe, x: i32, y: i32) -> (r: Option<u64>)
    requires
        old(u).wf(),
        in_world(x as int, y as int),
    ensures
        final(u).wf(),
        final(u)@ == spec_place_one(old(u)@, Element::Empty, x as int, y as int, 0, 0),
        old(u).spec_cell_at(x as int, y as int).element is Empty ==> final(u)@ == old(u)@ && r
            is None,
        !(old(u).spec_cell_at(x as int, y as int).element is Empty) ==> r == old(u).spec_cell_at(
            x as int,
            y as int,
        ).eid,
        handles_consistent(old(u)@) ==> handles_consistent(final(u)@),
{
    proof {
        lemma_index_in_range(x as int, y as int);
    }
    let cell = u.cell_at_coord(x, y);
    if cell.element == Element::Empty {
        None
    } else {
        u.set_cell_at_coord(x, y, Cell::new(Element::Empty, None));
        cell.eid
    }
}

/// Relies on rand::random_range: a draw from the thread-local generator,
/// uniform over the given range.
#[verifier::external_body]
fn thinning_draw() -> (r: u32)
    ensures
        r < 100,
{
    rand::random_range(0..100u32)
}

/// Paint with the stochastic thinning drawn from the ambient random
/// source: like `paint_cell`, with the draw made here. Whatever the draw,
/// only a free in-world cell is ever painted, and a material that is not
/// thinning-eligible is placed on a free cell unconditionally.
pub fn paint_cell_random(u: &mut Universe, m: Element, x: i32, y: i32, handle: u64) -> (r: bool)
    requires
        old(u).wf(),
        in_world(x as int, y as int),
        !(m is Empty),
    ensures
        final(u).wf(),
        exists|draw: int|
            0 <= draw < 100 && r == spec_paint_allowed(old(u)@, m, x as int, y as int, draw)
                && final(u)@ == spec_place_one(old(u)@, m, x as int, y as int, draw, handle),
        r ==> final(u)@ == old(u)@.update(
            spec_index_from_xy(x as int, y as int),
            Cell { element: m, eid: Some(handle) },
        ) && old(u).spec_cell_at(x as int, y as int).element is Empty,
        !r ==> final(u)@ == old(u)@,
        !(m is Sand) ==> r == (old(u).spec_cell_at(x as int, y as int).element is Empty),
        handles_consistent(old(u)@) ==> handles_consistent(final(u)@),
{
    let draw = thinning_draw();
    let r = paint_cell(u, m, x, y, draw, handle);
    proof {
        assert(0 <= (draw as int) && (draw as int) < 100 && r == spec_paint_allowed(old(u)@, m,
            x as int, y as int, draw as int) && u@ == spec_place_one(old(u)@, m, x as int,
            y as int, draw as int, handle));
    }
    r
}

/// One brush stroke folded over its coordinates in order: the grid after
/// every coordinate has been handled, and the outcome owed for each.
pub open spec fn spec_apply_brush(
    g: Seq<Cell>,
    m: Element,
    coords: Seq<(i32, i32)>,
    draws: Seq<u32>,
    handles: Seq<u64>,
) -> (Seq<Cell>, Seq<PlaceOutcome>)
    decreases coords.len(),
{
    if coords.len() == 0 {
        (g, Seq::empty())
    } else {
        let x = coords[0].0 as int;
        let y = coords[0].1 as int;
        let o = spec_place_outcome(g, m, x, y, draws[0] as int);
        let g1 = spec_place_one(g, m, x, y, draws[0] as int, handles[0]);
        let rest = spec_apply_brush(g1, m, coords.skip(1), draws.skip(1), handles.skip(1));
        (rest.0, seq![o] + rest.1)
    }
}

/// Apply one brush stroke: paint material `m` (or erase, when `m` is the
/// empty material) at each selected coordinate in order, skipping
/// coordinates outside the world and occupied cells, thinning the
/// thinning-eligible material by the given draws, and report per
/// coordinate what happened. `draws[i]` and `handles[i]` are consumed for
/// coordinate `i` when painting; erasing reads neither.
pub fn apply_brush(
    u: &mut Universe,
    m: Element,
    coords: &Vec<(i32, i32)>,
    draws: &Vec<u32>,
    handles: &Vec<u64>,
) -> (outcomes: Vec<PlaceOutcome>)
    requires
        old(u).wf(),
        draws@.len() == coords@.len(),
        handles@.len() == coords@.len(),
    ensures
        final(u).wf(),
        final(u)@ == spec_apply_brush(old(u)@, m, coords@, draws@, handles@).0,
        outcomes@ == spec_apply_brush(old(u)@, m, coords@, draws@, handles@).1,
        handles_consistent(old(u)@) ==> handles_consistent(final(u)@),
{
    let ghost g0 = u@;
    let mut outcomes: Vec<PlaceOutcome> = Vec::new();
    let mut i: usize = 0;
    proof {
        assert(coords@.skip(0) =~= coords@);
        assert(draws@.skip(0) =~= draws@);
        assert(handles@.skip(0) =~= handles@);
        assert(Seq::<PlaceOutcome>::empty() + spec_apply_brush(g0, m, coords@, draws@,
            handles@).1 =~= spec_apply_brush(g0, m, coords@, draws@, handles@).1);
    }
    while i < coords.len()
        invariant
            u.wf(),
            i <= coords@.len(),
            draws@.len() == coords@.len(),
            handles@.len() == coords@.len(),
            outcomes@.len() == i,
            spec_apply_brush(g0, m, coords@, draws@, handles@).0 == spec_apply_brush(
                u@,
                m,
                coords@.skip(i as int),
                draws@.skip(i as int),
                handles@.skip(i as int),
            ).0,
            spec_apply_brush(g0, m, coords@, draws@, handles@).1 == outcomes@ + spec_apply_brush(
                u@,
                m,
                coords@.skip(i as int),
                draws@.skip(i as int),
                handles@.skip(i as int),
            ).1,
            handles_consistent(g0) ==> handles_consistent(u@),
        decreases coords@.len() - i,
    {
        let ghost g_before = u@;
        let ghost rem_coords = coords@.skip(i as int);
        let ghost rem_draws = draws@.skip(i as int);
        let ghost rem_handles = handles@.skip(i as int);
        let c = coords[i];
        let outcome: PlaceOutcome;
        if !in_bounds(c.0, c.1) {
            outcome = PlaceOutcome::Skipped;
        } else if m == Element::Empty {
            let cell = u.cell_at_coord(c.0, c.1);
            if cell.element == Element::Empty {
                outcome = PlaceOutcome::Skipped;
            } else {
                erase_cell(u, c.0, c.1);
                outcome = PlaceOutcome::Erased(cell.eid);
            }
        } else {
            let painted = paint_cell(u, m, c.0, c.1, draws[i], handles[i]);
            outcome = if painted {
                PlaceOutcome::Painted
            } else {
                PlaceOutcome::Skipped
            };
        }
        let ghost prev_outcomes = outcomes@;
        outcomes.push(outcome);
        i = i + 1;
        proof {
            let j = i - 1;
            assert(rem_coords[0] == coords@[j] && rem_draws[0] == draws@[j] && rem_handles[0]
                == handles@[j]);
            assert(rem_coords.skip(1) =~= coords@.skip(i as int));
            assert(rem_draws.skip(1) =~= draws@.skip(i as int));
            assert(rem_handles.skip(1) =~= handles@.skip(i as int));
            let o = spec_place_outcome(g_before, m, coords@[j].0 as int, coords@[j].1 as int,
                draws@[j] as int);
            assert(outcome == o);
            assert(u@ == spec_place_one(g_before, m, coords@[j].0 as int, coords@[j].1 as int,
                draws@[j] as int, handles@[j]));
            let rest = spec_apply_brush(u@, m, coords@.skip(i as int), draws@.skip(i as int),
                handles@.skip(i as int));
            assert(spec_apply_brush(g_before, m, rem_coords, rem_draws, rem_handles).1 == seq![o]
                + rest.1);
            assert(prev_outcomes + (seq![o] + rest.1) =~= outcomes@ + rest.1);
        }
    }
    proof {
        assert(coords@.skip(coords@.len() as int) =~= Seq::<(i32, i32)>::empty());
        assert(spec_apply_brush(u@, m, coords@.skip(i as int), draws@.skip(i as int),
            handles@.skip(i as int)).1 =~= Seq::<PlaceOutcome>::empty());
        assert(outcomes@ + Seq::<PlaceOutcome>::empty() =~= outcomes@);
    }
    outcomes
}

} // verus!
