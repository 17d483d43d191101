use vstd::prelude::*;

use crate::Element;
use crate::constants::GRAVITY;
use crate::constants::TERMINAL_VELOCITY;
use crate::universe::Cell;
use crate::universe::Universe;
use crate::universe::cell_at;
use crate::universe::handles_consistent;
use crate::universe::in_bounds;
use crate::universe::in_world;
use crate::universe::lemma_move_cell_handles;
use crate::universe::spec_move_cell;

verus! {

pub open spec fn spec_sign(v: int) -> int {
    if v < 0 {
        -1
    } else {
        1
    }
}

pub open spec fn spec_abs(v: int) -> int {
    if v < 0 {
        -v
    } else {
        v
    }
}

/// One step of the per-tick path scan of a falling particle at `(x, y)`,
/// probing `delta` cells along `sign` with `best_y` the furthest clear
/// row found so far. The result is the target coordinate and whether the
/// particle's velocity is zeroed because its straight path and both
/// diagonals were blocked.
pub open spec fn scan_from(
    g: Seq<Cell>,
    x: int,
    y: int,
    sign: int,
    steps: int,
    delta: int,
    best_y: int,
) -> (int, int, bool)
    decreases steps + 1 - delta,
{
    if delta > steps {
        (x, best_y, false)
    } else {
        let check_y = y + delta * sign;
        if in_world(x, check_y) && cell_at(g, x, check_y).element is Empty {
            scan_from(g, x, y, sign, steps, delta + 1, check_y)
        } else if in_world(x + 1, check_y) && cell_at(g, x + 1, check_y).element is Empty {
            (x + 1, check_y, false)
        } else if in_world(x - 1, check_y) && cell_at(g, x - 1, check_y).element is Empty {
            (x - 1, check_y, false)
        } else {
            (x, best_y, true)
        }
    }
}

/// Where a gravity-bound particle at `(x, y)` with vertical velocity `v`
/// ends up this tick: the greedy scan keeps going as long as the straight
/// path is clear, takes a single diagonal slide when it is blocked, and
/// otherwise rests where the clear path ended, zeroing the velocity.
pub open spec fn spec_gravity_target(g: Seq<Cell>, x: int, y: int, v: int) -> (int, int, bool) {
    scan_from(g, x, y, spec_sign(v), spec_abs(v), 1, y)
}

/// The velocity after a tick: zeroed when the scan ended fully blocked,
/// otherwise accelerated by gravity until the terminal magnitude.
pub open spec fn spec_next_velocity(v: int, zeroed: bool) -> int {
    if zeroed {
        0
    } else if -TERMINAL_VELOCITY < v < TERMINAL_VELOCITY {
        v + GRAVITY
    } else {
        v
    }
}

proof fn lemma_scan_clear_path(g: Seq<Cell>, x: int, y: int, steps: int, delta: int, best_y: int)
    requires
        1 <= delta <= steps,
        forall|cy: int|
            y - steps <= cy <= y - delta ==> in_world(x, cy) && (#[trigger] cell_at(g, x,
                cy)).element is Empty,
    ensures
        scan_from(g, x, y, -1, steps, delta, best_y) == (x, y - steps, false),
    decreases steps - delta,
{
    let check_y = y + delta * -1;
    assert(check_y == y - delta);
    if delta == steps {
        assert(scan_from(g, x, y, -1, steps, delta + 1, check_y) == (x, y - steps, false));
    } else {
        lemma_scan_clear_path(g, x, y, steps, delta + 1, check_y);
    }
}

/// Gravity conservation: a falling particle whose straight path below is
/// clear for the whole scan ends up exactly `|v|` cells straight down,
/// with its velocity not zeroed. Together with the grid clause of
/// `gravity_step` and `lemma_move_cell_effect`, the origin cell becomes
/// empty and the destination takes the particle's cell — never both or
/// neither.
pub proof fn lemma_gravity_unobstructed(g: Seq<Cell>, x: int, y: int, v: int)
    requires
        in_world(x, y),
        -TERMINAL_VELOCITY <= v <= 0,
        forall|cy: int|
            y - spec_abs(v) <= cy < y ==> in_world(x, cy) && (#[trigger] cell_at(g, x,
                cy)).element is Empty,
    ensures
        spec_gravity_target(g, x, y, v) == (x, y - spec_abs(v), false),
{
    if v <= -1 {
        lemma_scan_clear_path(g, x, y, spec_abs(v), 1, y);
    }
}

/// Gravity rest: a particle boxed in along its path — the next cell
/// straight ahead and both diagonals beside it blocked or out of world —
/// does not move, and its velocity is zeroed by the tick.
pub proof fn lemma_gravity_boxed(g: Seq<Cell>, x: int, y: int, v: int)
    requires
        in_world(x, y),
        1 <= spec_abs(v) <= TERMINAL_VELOCITY,
        !(in_world(x, y + spec_sign(v)) && cell_at(g, x, y + spec_sign(v)).element is Empty),
        !(in_world(x + 1, y + spec_sign(v)) && cell_at(g, x + 1, y + spec_sign(v)).element
            is Empty),
        !(in_world(x - 1, y + spec_sign(v)) && cell_at(g, x - 1, y + spec_sign(v)).element
            is Empty),
    ensures
        spec_gravity_target(g, x, y, v) == (x, y, true),
        spec_next_velocity(v, true) == 0,
{
    assert(y + 1 * spec_sign(v) == y + spec_sign(v));
}

/// Advance one gravity-bound particle at `(x, y)` with vertical velocity
/// `v` by one tick: scan up to `|v|` cells along its path, move it to the
/// furthest reachable cell (or one diagonal slide), and return its new
/// coordinate and velocity.
pub fn gravity_step(u: &mut Universe, x: i32, y: i32, v: i32) -> (r: (i32, i32, i32))
    requires
        old(u).wf(),
        in_world(x as int, y as int),
        -TERMINAL_VELOCITY <= v <= TERMINAL_VELOCITY,
    ensures
        final(u).wf(),
        ({
            let (tx, ty, zeroed) = spec_gravity_target(old(u)@, x as int, y as int, v as int);
            &&& r.0 == tx
            &&& r.1 == ty
            &&& r.2 == spec_next_velocity(v as int, zeroed)
            &&& in_world(tx, ty)
            &&& -TERMINAL_VELOCITY <= r.2 <= TERMINAL_VELOCITY
            &&& final(u)@ == (if tx != x || ty != y {
                spec_move_cell(old(u)@, x as int, y as int, tx, ty)
            } else {
                old(u)@
            })
        }),
        handles_consistent(old(u)@) ==> handles_consistent(final(u)@),
{
    let ghost g = u@;
    let sign: i32 = if v < 0 { -1 } else { 1 };
    let steps: i32 = if v < 0 { -v } else { v };
    let mut delta: i32 = 1;
    let mut best_y: i32 = y;
    let mut result_x: i32 = x;
    let mut result_y: i32 = y;
    let mut zeroed: bool = false;
    loop
        invariant_except_break
            u.wf(),
            u@ == g,
            in_world(x as int, y as int),
            in_world(x as int, best_y as int),
            sign == spec_sign(v as int),
            steps == spec_abs(v as int),
            0 <= steps <= TERMINAL_VELOCITY,
            1 <= delta <= steps + 1,
            scan_from(g, x as int, y as int, sign as int, steps as int, delta as int,
                best_y as int) == spec_gravity_target(g, x as int, y as int, v as int),
        ensures
            u.wf(),
            u@ == g,
            in_world(result_x as int, result_y as int),
            (result_x as int, result_y as int, zeroed) == spec_gravity_target(g, x as int,
                y as int, v as int),
        decreases steps + 1 - delta,
    {
        if delta > steps {
            result_x = x;
            result_y = best_y;
            zeroed = false;
            break;
        }
        let check_y = if sign < 0 { y - delta } else { y + delta };
        proof {
            let s = spec_sign(v as int);
            if v < 0 {
                assert(delta as int * s == -(delta as int)) by (nonlinear_arith)
                    requires s == -1;
            } else {
                assert(delta as int * s == delta as int) by (nonlinear_arith)
                    requires s == 1;
            }
            assert(check_y == y + delta * s);
        }
        if in_bounds(x, check_y) && u.element_at_coord(x, check_y) == Element::Empty {
            best_y = check_y;
            delta = delta + 1;
        } else if in_bounds(x + 1, check_y) && u.element_at_coord(x + 1, check_y)
            == Element::Empty {
            result_x = x + 1;
            result_y = check_y;
            zeroed = false;
            break;
        } else if in_bounds(x - 1, check_y) && u.element_at_coord(x - 1, check_y)
            == Element::Empty {
            result_x = x - 1;
            result_y = check_y;
            zeroed = false;
            break;
        } else {
            result_x = x;
            result_y = best_y;
            zeroed = true;
            break;
        }
    }
    if result_x != x || result_y != y {
        let cell = u.cell_at_coord(x, y);
        u.set_cell_at_coord(x, y, Cell::new(Element::Empty, None));
        u.set_cell_at_coord(result_x, result_y, cell);
        proof {
            if handles_consistent(g) {
                lemma_move_cell_handles(g, x as int, y as int, result_x as int, result_y as int);
            }
        }
    }
    let new_v: i32 = if zeroed {
        0
    } else if -TERMINAL_VELOCITY < v && v < TERMINAL_VELOCITY {
        v + GRAVITY
    } else {
        v
    };
    (result_x, result_y, new_v)
}

proof fn lemma_scan_target_free(
    g: Seq<Cell>,
    x: int,
    y: int,
    sign: int,
    steps: int,
    delta: int,
    best_y: int,
)
    requires
        best_y == y || cell_at(g, x, best_y).element is Empty,
    ensures
        ({
            let t = scan_from(g, x, y, sign, steps, delta, best_y);
            (t.0, t.1) == (x, y) || cell_at(g, t.0, t.1).element is Empty
        }),
    decreases steps + 1 - delta,
{
    if delta <= steps {
        let check_y = y + delta * sign;
        if in_world(x, check_y) && cell_at(g, x, check_y).element is Empty {
            lemma_scan_target_free(g, x, y, sign, steps, delta + 1, check_y);
        }
    }
}

/// A falling particle only ever lands on a free cell: when the scan sends
/// it anywhere but its origin, the destination was empty before the move.
pub proof fn lemma_gravity_lands_on_empty(g: Seq<Cell>, x: int, y: int, v: int)
    ensures
        ({
            let t = spec_gravity_target(g, x, y, v);
            (t.0, t.1) == (x, y) || cell_at(g, t.0, t.1).element is Empty
        }),
{
    lemma_scan_target_free(g, x, y, spec_sign(v), spec_abs(v), 1, y);
}

/// State the simulation tracks for one gravity-bound particle between
/// ticks: its coordinate and its vertical velocity.
#[derive(Clone, Copy, Debug, PartialEq, Eq, Structural)]
pub struct GravityParticle {
    pub x: i32,
    pub y: i32,
    pub velocity: i32,
}

impl GravityParticle {
    pub open spec fn wf(self) -> bool {
        &&& in_world(self.x as int, self.y as int)
        &&& -TERMINAL_VELOCITY <= self.velocity <= TERMINAL_VELOCITY
    }
}

/// One full gravity pass folded over the particles in order: each
/// particle is advanced on the grid its predecessors left behind.
pub open spec fn spec_gravity_tick(g: Seq<Cell>, ps: Seq<GravityParticle>) -> (Seq<Cell>, Seq<
    GravityParticle,
>)
    decreases ps.len(),
{
    if ps.len() == 0 {
        (g, Seq::empty())
    } else {
        let p = ps[0];
        let t = spec_gravity_target(g, p.x as int, p.y as int, p.velocity as int);
        let g1 = if t.0 != p.x as int || t.1 != p.y as int {
            spec_move_cell(g, p.x as int, p.y as int, t.0, t.1)
        } else {
            g
        };
        let p1 = GravityParticle {
            x: t.0 as i32,
            y: t.1 as i32,
            velocity: spec_next_velocity(p.velocity as int, t.2) as i32,
        };
        let rest = spec_gravity_tick(g1, ps.skip(1));
        (rest.0, seq![p1] + rest.1)
    }
}

/// Advance every gravity-bound particle by one tick, in the collection's
/// order, updating each particle's coordinate and velocity in place.
pub fn gravity_tick(u: &mut Universe, particles: &mut Vec<GravityParticle>)
    requires
        old(u).wf(),
        forall|j: int| 0 <= j < old(particles)@.len() ==> (#[trigger] old(particles)@[j]).wf(),
    ensures
        final(u).wf(),
        final(u)@ == spec_gravity_tick(old(u)@, old(particles)@).0,
        final(particles)@ == spec_gravity_tick(old(u)@, old(particles)@).1,
        forall|j: int|
            0 <= j < final(particles)@.len() ==> (#[trigger] final(particles)@[j]).wf(),
        handles_consistent(old(u)@) ==> handles_consistent(final(u)@),
{
    let ghost g0 = u@;
    let ghost ps0 = particles@;
    let n = particles.len();
    let mut i: usize = 0;
    proof {
        assert(ps0.skip(0) =~= ps0);
        assert(Seq::<GravityParticle>::empty() + spec_gravity_tick(g0, ps0).1
            =~= spec_gravity_tick(g0, ps0).1);
    }
    while i < n
        invariant
            u.wf(),
            i <= n,
            particles@.len() == n,
            ps0.len() == n,
            forall|j: int| i <= j < n ==> particles@[j] == ps0[j],
            forall|j: int| 0 <= j < n ==> (#[trigger] ps0[j]).wf(),
            forall|j: int| 0 <= j < i ==> (#[trigger] particles@[j]).wf(),
            spec_gravity_tick(g0, ps0).0 == spec_gravity_tick(u@, ps0.skip(i as int)).0,
            spec_gravity_tick(g0, ps0).1 == particles@.subrange(0, i as int)
                + spec_gravity_tick(u@, ps0.skip(i as int)).1,
            handles_consistent(g0) ==> handles_consistent(u@),
        decreases n - i,
    {
        let ghost g_before = u@;
        let ghost prev = particles@;
        let p = particles[i];
        let r = gravity_step(u, p.x, p.y, p.velocity);
        particles[i] = GravityParticle { x: r.0, y: r.1, velocity: r.2 };
        i = i + 1;
        proof {
            let j = i - 1;
            let rem = ps0.skip(j);
            assert(rem[0] == ps0[j]);
            assert(rem.skip(1) =~= ps0.skip(i as int));
            let t = spec_gravity_target(g_before, p.x as int, p.y as int, p.velocity as int);
            let p1 = GravityParticle {
                x: t.0 as i32,
                y: t.1 as i32,
                velocity: spec_next_velocity(p.velocity as int, t.2) as i32,
            };
            assert(particles@[j as int] == p1);
            let rest = spec_gravity_tick(u@, ps0.skip(i as int));
            assert(spec_gravity_tick(g_before, rem).0 == rest.0);
            assert(spec_gravity_tick(g_before, rem).1 == seq![p1] + rest.1);
            assert(particles@.subrange(0, i as int) =~= prev.subrange(0, j) + seq![p1]);
            assert(prev.subrange(0, j) + (seq![p1] + rest.1) =~= particles@.subrange(0, i as int)
                + rest.1);
        }
    }
    proof {
        assert(ps0.skip(n as int) =~= Seq::<GravityParticle>::empty());
        assert(particles@.subrange(0, n as int) =~= particles@);
        assert(particles@ + Seq::<GravityParticle>::empty() =~= particles@);
    }
}

} // verus!
