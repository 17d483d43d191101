use vstd::prelude::*;

use crate::Element;
use crate::universe::Cell;
use crate::universe::Universe;
use crate::universe::cell_at;
use crate::universe::handles_consistent;
use crate::universe::in_bounds;
use crate::universe::in_world;
use crate::universe::lemma_move_cell_handles;
use crate::universe::spec_move_cell;

verus! {

/// The lateral probe of a fluid particle at `(x, y)` that cannot flow
/// down: at each distance `delta` it looks right, then left, at the same
/// row; on the first free cell seen it commits to moving a single cell
/// toward that side. Probing stops short of the dispersion `d`.
pub open spec fn lateral_scan(g: Seq<Cell>, x: int, y: int, d: int, delta: int) -> (int, int)
    decreases d - delta,
{
    if delta >= d {
        (x, y)
    } else if in_world(x + delta, y) && cell_at(g, x + delta, y).element is Empty {
        (x + 1, y)
    } else if in_world(x - delta, y) && cell_at(g, x - delta, y).element is Empty {
        (x - 1, y)
    } else {
        lateral_scan(g, x, y, d, delta + 1)
    }
}

/// Where a fluid particle at `(x, y)` with dispersion `d` ends up this
/// tick: straight down when the cell below is free, otherwise one cell
/// toward the nearest laterally visible free cell, otherwise in place.
pub open spec fn spec_fluid_target(g: Seq<Cell>, x: int, y: int, d: int) -> (int, int) {
    if in_world(x, y - 1) && cell_at(g, x, y - 1).element is Empty {
        (x, y - 1)
    } else {
        lateral_scan(g, x, y, d, 1)
    }
}

/// Fluid priority: with the cell directly below free, a fluid particle
/// flows straight down, whatever the cells beside it hold.
pub proof fn lemma_fluid_prefers_down(g: Seq<Cell>, x: int, y: int, d: int)
    requires
        in_world(x, y - 1),
        cell_at(g, x, y - 1).element is Empty,
    ensures
        spec_fluid_target(g, x, y, d) == (x, y - 1),
{
}

proof fn lemma_lateral_scan_result(g: Seq<Cell>, x: int, y: int, d: int, delta: int)
    ensures
        ({
            let t = lateral_scan(g, x, y, d, delta);
            t.1 == y && x - 1 <= t.0 <= x + 1
        }),
    decreases d - delta,
{
    if delta < d {
        lemma_lateral_scan_result(g, x, y, d, delta + 1);
    }
}

/// Fluid dispersion bound, movement part: one tick moves a fluid
/// particle at most one cell — straight down, or a single cell left or
/// right on the same row.
pub proof fn lemma_fluid_moves_one(g: Seq<Cell>, x: int, y: int, d: int)
    ensures
        ({
            let t = spec_fluid_target(g, x, y, d);
            (t == (x, y - 1)) || (t.1 == y && x - 1 <= t.0 <= x + 1)
        }),
{
    lemma_lateral_scan_result(g, x, y, d, 1);
}

proof fn lemma_lateral_scan_frame(
    g1: Seq<Cell>,
    g2: Seq<Cell>,
    x: int,
    y: int,
    d: int,
    delta: int,
)
    requires
        1 <= delta,
        forall|cx: int|
            x - (d - 1) <= cx <= x + (d - 1) ==> cell_at(g1, cx, y) == #[trigger] cell_at(
                g2,
                cx,
                y,
            ),
    ensures
        lateral_scan(g1, x, y, d, delta) == lateral_scan(g2, x, y, d, delta),
    decreases d - delta,
{
    if delta < d {
        assert(cell_at(g1, x + delta, y) == cell_at(g2, x + delta, y));
        assert(cell_at(g1, x - delta, y) == cell_at(g2, x - delta, y));
        lemma_lateral_scan_frame(g1, g2, x, y, d, delta + 1);
    }
}

/// Fluid dispersion bound, probing part: the tick's outcome depends only
/// on the cell directly below and the cells within `d - 1` columns on the
/// particle's own row — the scan never probes beyond the dispersion
/// window. Two grids that agree there send the particle the same way.
pub proof fn lemma_fluid_probe_window(g1: Seq<Cell>, g2: Seq<Cell>, x: int, y: int, d: int)
    requires
        cell_at(g1, x, y - 1) == cell_at(g2, x, y - 1),
        forall|cx: int|
            x - (d - 1) <= cx <= x + (d - 1) ==> cell_at(g1, cx, y) == #[trigger] cell_at(
                g2,
                cx,
                y,
            ),
    ensures
        spec_fluid_target(g1, x, y, d) == spec_fluid_target(g2, x, y, d),
{
    lemma_lateral_scan_frame(g1, g2, x, y, d, 1);
}

/// Advance one fluid particle at `(x, y)` with the given dispersion by
/// one tick. Returns the particle's new coordinate and, when the move
/// overwrote an occupied cell, the visual handle that cell held, so the
/// caller can retire its renderable object.
pub fn fluid_step(u: &mut Universe, x: i32, y: i32, dispersion: u8) -> (r: (i32, i32, Option<
    u64,
>))
    requires
        old(u).wf(),
        in_world(x as int, y as int),
        dispersion >= 1,
    ensures
        final(u).wf(),
        ({
            let (tx, ty) = spec_fluid_target(old(u)@, x as int, y as int, dispersion as int);
            &&& r.0 == tx
            &&& r.1 == ty
            &&& in_world(tx, ty)
            &&& (if tx != x || ty != y {
                final(u)@ == spec_move_cell(old(u)@, x as int, y as int, tx, ty) && r.2 == cell_at(
                    old(u)@,
                    tx,
                    ty,
                ).eid
            } else {
                final(u)@ == old(u)@ && r.2 is None
            })
        }),
        handles_consistent(old(u)@) ==> handles_consistent(final(u)@),
{
    let ghost g = u@;
    let d: i32 = dispersion as i32;
    let mut target_x: i32 = x;
    let mut target_y: i32 = y;
    if in_bounds(x, y - 1) && u.element_at_coord(x, y - 1) == Element::Empty {
        target_y = y - 1;
    } else {
        let mut delta: i32 = 1;
        loop
            invariant_except_break
                u.wf(),
                u@ == g,
                in_world(x as int, y as int),
                1 <= delta <= d,
                d == dispersion as int,
                lateral_scan(g, x as int, y as int, d as int, delta as int) == lateral_scan(
                    g,
                    x as int,
                    y as int,
                    d as int,
                    1,
                ),
                target_x == x,
                target_y == y,
            ensures
                u.wf(),
                u@ == g,
                in_world(target_x as int, target_y as int),
                (target_x as int, target_y as int) == lateral_scan(g, x as int, y as int,
                    d as int, 1),
            decreases d - delta,
        {
            if delta >= d {
                break;
            }
            if in_bounds(x + delta, y) && u.element_at_coord(x + delta, y) == Element::Empty {
                target_x = x + 1;
                break;
            } else if in_bounds(x - delta, y) && u.element_at_coord(x - delta, y)
                == Element::Empty {
                target_x = x - 1;
                break;
            }
            delta = delta + 1;
        }
    }
    let mut displaced: Option<u64> = None;
    if target_x != x || target_y != y {
        displaced = u.eid_at_coord(target_x, target_y);
        let cell = u.cell_at_coord(x, y);
        u.set_cell_at_coord(x, y, Cell::new(Element::Empty, None));
        u.set_cell_at_coord(target_x, target_y, cell);
        proof {
            if handles_consistent(g) {
                lemma_move_cell_handles(g, x as int, y as int, target_x as int,
                    target_y as int);
            }
        }
    }
    (target_x, target_y, displaced)
}

/// State the simulation tracks for one fluid particle between ticks: its
/// coordinate and its fixed dispersion.
#[derive(Clone, Copy, Debug, PartialEq, Eq, Structural)]
pub struct FluidParticle {
    pub x: i32,
    pub y: i32,
    pub dispersion: u8,
}

impl FluidParticle {
    pub open spec fn wf(self) -> bool {
        &&& in_world(self.x as int, self.y as int)
        &&& self.dispersion >= 1
    }
}

/// One full fluid pass folded over the particles in order: each particle
/// flows on the grid its predecessors left behind. The third component
/// lists, per particle, the visual handle its move overwrote, if any.
pub open spec fn spec_fluid_tick(g: Seq<Cell>, ps: Seq<FluidParticle>) -> (Seq<Cell>, Seq<
    FluidParticle,
>, Seq<Option<u64>>)
    decreases ps.len(),
{
    if ps.len() == 0 {
        (g, Seq::empty(), Seq::empty())
    } else {
        let p = ps[0];
        let t = spec_fluid_target(g, p.x as int, p.y as int, p.dispersion as int);
        let moved = t.0 != p.x as int || t.1 != p.y as int;
        let g1 = if moved {
            spec_move_cell(g, p.x as int, p.y as int, t.0, t.1)
        } else {
            g
        };
        let d = if moved {
            cell_at(g, t.0, t.1).eid
        } else {
            None
        };
        let p1 = FluidParticle { x: t.0 as i32, y: t.1 as i32, dispersion: p.dispersion };
        let rest = spec_fluid_tick(g1, ps.skip(1));
        (rest.0, seq![p1] + rest.1, seq![d] + rest.2)
    }
}

/// Advance every fluid particle by one tick, in the collection's order,
/// updating each particle's coordinate in place. Returns, per particle,
/// the visual handle its move overwrote, if any, so the caller can retire
/// the matching renderable objects.
pub fn fluid_tick(u: &mut Universe, particles: &mut Vec<FluidParticle>) -> (displaced: Vec<
    Option<u64>,
>)
    requires
        old(u).wf(),
        forall|j: int| 0 <= j < old(particles)@.len() ==> (#[trigger] old(particles)@[j]).wf(),
    ensures
        final(u).wf(),
        final(u)@ == spec_fluid_tick(old(u)@, old(particles)@).0,
        final(particles)@ == spec_fluid_tick(old(u)@, old(particles)@).1,
        displaced@ == spec_fluid_tick(old(u)@, old(particles)@).2,
        forall|j: int|
            0 <= j < final(particles)@.len() ==> (#[trigger] final(particles)@[j]).wf(),
        handles_consistent(old(u)@) ==> handles_consistent(final(u)@),
{
    let ghost g0 = u@;
    let ghost ps0 = particles@;
    let n = particles.len();
    let mut displaced: Vec<Option<u64>> = Vec::new();
    let mut i: usize = 0;
    proof {
        assert(ps0.skip(0) =~= ps0);
        assert(Seq::<FluidParticle>::empty() + spec_fluid_tick(g0, ps0).1 =~= spec_fluid_tick(
            g0, ps0).1);
        assert(Seq::<Option<u64>>::empty() + spec_fluid_tick(g0, ps0).2 =~= spec_fluid_tick(g0,
            ps0).2);
    }
    while i < n
        invariant
            u.wf(),
            i <= n,
            particles@.len() == n,
            ps0.len() == n,
            displaced@.len() == i,
            forall|j: int| i <= j < n ==> particles@[j] == ps0[j],
            forall|j: int| 0 <= j < n ==> (#[trigger] ps0[j]).wf(),
            forall|j: int| 0 <= j < i ==> (#[trigger] particles@[j]).wf(),
            spec_fluid_tick(g0, ps0).0 == spec_fluid_tick(u@, ps0.skip(i as int)).0,
            spec_fluid_tick(g0, ps0).1 == particles@.subrange(0, i as int) + spec_fluid_tick(
                u@,
                ps0.skip(i as int),
            ).1,
            spec_fluid_tick(g0, ps0).2 == displaced@ + spec_fluid_tick(u@, ps0.skip(i as int)).2,
            handles_consistent(g0) ==> handles_consistent(u@),
        decreases n - i,
    {
        let ghost g_before = u@;
        let ghost prev = particles@;
        let ghost prev_displaced = displaced@;
        let p = particles[i];
        let r = fluid_step(u, p.x, p.y, p.dispersion);
        particles[i] = FluidParticle { x: r.0, y: r.1, dispersion: p.dispersion };
        displaced.push(r.2);
        i = i + 1;
        proof {
            let j = i - 1;
            let rem = ps0.skip(j);
            assert(rem[0] == ps0[j]);
            assert(rem.skip(1) =~= ps0.skip(i as int));
            let t = spec_fluid_target(g_before, p.x as int, p.y as int, p.dispersion as int);
            let p1 = FluidParticle { x: t.0 as i32, y: t.1 as i32, dispersion: p.dispersion };
            assert(particles@[j as int] == p1);
            let rest = spec_fluid_tick(u@, ps0.skip(i as int));
            assert(spec_fluid_tick(g_before, rem).0 == rest.0);
            assert(spec_fluid_tick(g_before, rem).1 == seq![p1] + rest.1);
            assert(spec_fluid_tick(g_before, rem).2 == seq![r.2] + rest.2);
            assert(particles@.subrange(0, i as int) =~= prev.subrange(0, j) + seq![p1]);
            assert(prev.subrange(0, j) + (seq![p1] + rest.1) =~= particles@.subrange(0, i as int)
                + rest.1);
            assert(prev_displaced + (seq![r.2] + rest.2) =~= displaced@ + rest.2);
        }
    }
    proof {
        assert(ps0.skip(n as int) =~= Seq::<FluidParticle>::empty());
        assert(particles@.subrange(0, n as int) =~= particles@);
        assert(particles@ + Seq::<FluidParticle>::empty() =~= particles@);
        assert(displaced@ + Seq::<Option<u64>>::empty() =~= displaced@);
    }
    displaced
}

} // verus!
