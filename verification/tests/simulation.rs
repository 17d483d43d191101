use particles_game::Element;
use particles_game::FluidParticle;
use particles_game::GravityParticle;
use particles_game::PlaceOutcome;
use particles_game::Universe;
use particles_game::apply_brush;
use particles_game::fluid_step;
use particles_game::fluid_tick;
use particles_game::gravity_step;
use particles_game::gravity_tick;
use particles_game::paint_cell;

fn universe_with(cells: &[(i32, i32, Element)]) -> Universe {
    let mut u = Universe::new();
    for &(x, y, e) in cells {
        u.set_element_at_coord(x, y, e);
    }
    u
}

#[test]
fn paint_then_fall_scenario() {
    // an empty world; sand painted with the smallest brush at the origin,
    // with the thinning draw forced to succeed
    let mut u = Universe::new();
    let coords = vec![(0, 0)];
    let outcomes = apply_brush(&mut u, Element::Sand, &coords, &vec![0], &vec![17]);
    assert_eq!(outcomes, vec![PlaceOutcome::Painted]);
    let c = u.cell_at_coord(0, 0);
    assert_eq!(c.element, Element::Sand);
    assert_eq!(c.eid, Some(17));
    for (x, y) in [(1, 0), (-1, 0), (0, 1), (0, -1), (1, 1), (-1, -1)] {
        assert_eq!(u.element_at_coord(x, y), Element::Empty);
    }

    // one gravity step at unit falling speed drops it one cell
    let (tx, ty, tv) = gravity_step(&mut u, 0, 0, -1);
    assert_eq!((tx, ty), (0, -1));
    assert_eq!(u.element_at_coord(0, 0), Element::Empty);
    assert_eq!(u.eid_at_coord(0, 0), None);
    let landed = u.cell_at_coord(0, -1);
    assert_eq!(landed.element, Element::Sand);
    assert_eq!(landed.eid, Some(17));
    // still below terminal speed, so it keeps accelerating
    assert_eq!(tv, -2);
}

#[test]
fn unobstructed_particle_falls_its_whole_speed() {
    let mut u = universe_with(&[(0, 0, Element::Sand)]);
    let (tx, ty, tv) = gravity_step(&mut u, 0, 0, -3);
    assert_eq!((tx, ty), (0, -3));
    assert_eq!(tv, -3);
    assert_eq!(u.element_at_coord(0, 0), Element::Empty);
    assert_eq!(u.element_at_coord(0, -1), Element::Empty);
    assert_eq!(u.element_at_coord(0, -2), Element::Empty);
    assert_eq!(u.element_at_coord(0, -3), Element::Sand);
}

#[test]
fn slow_particle_does_not_move_but_accelerates() {
    let mut u = universe_with(&[(0, 0, Element::Sand)]);
    let (tx, ty, tv) = gravity_step(&mut u, 0, 0, 0);
    assert_eq!((tx, ty), (0, 0));
    assert_eq!(tv, -1);
    assert_eq!(u.element_at_coord(0, 0), Element::Sand);
}

#[test]
fn blocked_particle_slides_right_first() {
    let mut u = universe_with(&[(0, 0, Element::Sand), (0, -1, Element::Stone)]);
    let (tx, ty, _) = gravity_step(&mut u, 0, 0, -2);
    assert_eq!((tx, ty), (1, -1));
    assert_eq!(u.element_at_coord(0, 0), Element::Empty);
    assert_eq!(u.element_at_coord(1, -1), Element::Sand);
}

#[test]
fn blocked_particle_slides_left_when_right_is_taken() {
    let mut u = universe_with(&[
        (0, 0, Element::Sand),
        (0, -1, Element::Stone),
        (1, -1, Element::Stone),
    ]);
    let (tx, ty, _) = gravity_step(&mut u, 0, 0, -1);
    assert_eq!((tx, ty), (-1, -1));
    assert_eq!(u.element_at_coord(-1, -1), Element::Sand);
}

#[test]
fn a_slide_consumes_the_remaining_path() {
    // clear for one cell, blocked two below, free diagonally: the
    // particle takes the slide and stops there even at full speed
    let mut u = universe_with(&[(0, 0, Element::Sand), (0, -2, Element::Stone)]);
    let (tx, ty, _) = gravity_step(&mut u, 0, 0, -3);
    assert_eq!((tx, ty), (1, -2));
    assert_eq!(u.element_at_coord(0, 0), Element::Empty);
    assert_eq!(u.element_at_coord(1, -2), Element::Sand);
}

#[test]
fn boxed_in_particle_rests_and_zeroes_its_velocity() {
    let mut u = universe_with(&[
        (0, 0, Element::Sand),
        (0, -1, Element::Stone),
        (1, -1, Element::Stone),
        (-1, -1, Element::Stone),
    ]);
    let (tx, ty, tv) = gravity_step(&mut u, 0, 0, -3);
    assert_eq!((tx, ty), (0, 0));
    assert_eq!(tv, 0);
    assert_eq!(u.element_at_coord(0, 0), Element::Sand);
}

#[test]
fn particle_on_the_floor_rests() {
    let mut u = universe_with(&[(0, -64, Element::Sand)]);
    let (tx, ty, tv) = gravity_step(&mut u, 0, -64, -3);
    assert_eq!((tx, ty), (0, -64));
    assert_eq!(tv, 0);
    assert_eq!(u.element_at_coord(0, -64), Element::Sand);
}

#[test]
fn a_fall_cut_short_zeroes_the_velocity() {
    // two cells of clear path, then blocked with both diagonals taken:
    // the particle still takes the clear path but comes to rest
    let mut u = universe_with(&[
        (0, 0, Element::Sand),
        (0, -3, Element::Stone),
        (1, -3, Element::Stone),
        (-1, -3, Element::Stone),
    ]);
    let (tx, ty, tv) = gravity_step(&mut u, 0, 0, -3);
    assert_eq!((tx, ty), (0, -2));
    assert_eq!(tv, 0);
    assert_eq!(u.element_at_coord(0, -2), Element::Sand);
}

#[test]
fn velocity_clamps_at_terminal() {
    let mut u = universe_with(&[(0, 0, Element::Sand)]);
    let (_, _, tv) = gravity_step(&mut u, 0, 0, -3);
    assert_eq!(tv, -3);
}

#[test]
fn gravity_tick_moves_every_particle() {
    let mut u = universe_with(&[(0, 0, Element::Sand), (5, 10, Element::Sand)]);
    let mut ps = vec![
        GravityParticle { x: 0, y: 0, velocity: -1 },
        GravityParticle { x: 5, y: 10, velocity: -2 },
    ];
    gravity_tick(&mut u, &mut ps);
    assert_eq!(ps[0], GravityParticle { x: 0, y: -1, velocity: -2 });
    assert_eq!(ps[1], GravityParticle { x: 5, y: 8, velocity: -3 });
    assert_eq!(u.element_at_coord(0, -1), Element::Sand);
    assert_eq!(u.element_at_coord(5, 8), Element::Sand);
    assert_eq!(u.element_at_coord(0, 0), Element::Empty);
    assert_eq!(u.element_at_coord(5, 10), Element::Empty);
}

#[test]
fn stacking_sand_comes_to_rest_over_ticks() {
    let mut u = universe_with(&[(0, -64, Element::Stone), (0, -62, Element::Sand)]);
    let mut ps = vec![GravityParticle { x: 0, y: -62, velocity: 0 }];
    for _ in 0..6 {
        gravity_tick(&mut u, &mut ps);
    }
    // it lands on the stone and stays there; diagonals stay clear so it
    // slides off the single support
    let p = ps[0];
    assert_eq!(u.element_at_coord(p.x, p.y), Element::Sand);
    assert_eq!(p.y, -64);
}

#[test]
fn fluid_flows_straight_down_first() {
    // both sides free as well: down still wins
    let mut u = universe_with(&[(0, 0, Element::Water)]);
    let (tx, ty, displaced) = fluid_step(&mut u, 0, 0, 3);
    assert_eq!((tx, ty), (0, -1));
    assert_eq!(displaced, None);
    assert_eq!(u.element_at_coord(0, 0), Element::Empty);
    assert_eq!(u.element_at_coord(0, -1), Element::Water);
}

#[test]
fn fluid_spreads_right_before_left() {
    let mut u = universe_with(&[(0, 0, Element::Water), (0, -1, Element::Stone)]);
    let (tx, ty, _) = fluid_step(&mut u, 0, 0, 3);
    assert_eq!((tx, ty), (1, 0));
    assert_eq!(u.element_at_coord(1, 0), Element::Water);
}

#[test]
fn fluid_spreads_left_when_right_is_blocked() {
    let mut u = universe_with(&[
        (0, 0, Element::Water),
        (0, -1, Element::Stone),
        (1, 0, Element::Stone),
        (2, 0, Element::Stone),
    ]);
    let (tx, ty, _) = fluid_step(&mut u, 0, 0, 3);
    assert_eq!((tx, ty), (-1, 0));
    assert_eq!(u.element_at_coord(-1, 0), Element::Water);
}

#[test]
fn fluid_with_unit_dispersion_never_spreads() {
    let mut u = universe_with(&[(0, 0, Element::Water), (0, -1, Element::Stone)]);
    let (tx, ty, _) = fluid_step(&mut u, 0, 0, 1);
    assert_eq!((tx, ty), (0, 0));
    assert_eq!(u.element_at_coord(0, 0), Element::Water);
}

#[test]
fn fluid_moves_one_cell_toward_a_distant_gap() {
    // the neighbour is taken but a gap is visible two cells right: the
    // particle commits one cell toward it, overwriting the neighbour
    let mut u = universe_with(&[
        (0, 0, Element::Water),
        (0, -1, Element::Stone),
        (-1, 0, Element::Stone),
    ]);
    u.set_cell_at_coord(1, 0, particles_game::Cell::new(Element::Stone, Some(55)));
    let (tx, ty, displaced) = fluid_step(&mut u, 0, 0, 3);
    assert_eq!((tx, ty), (1, 0));
    assert_eq!(displaced, Some(55));
    assert_eq!(u.element_at_coord(0, 0), Element::Empty);
    assert_eq!(u.element_at_coord(1, 0), Element::Water);
}

#[test]
fn fluid_boxed_within_dispersion_stays_put() {
    let mut u = universe_with(&[
        (0, 0, Element::Water),
        (0, -1, Element::Stone),
        (1, 0, Element::Stone),
        (2, 0, Element::Stone),
        (-1, 0, Element::Stone),
        (-2, 0, Element::Stone),
    ]);
    // free cells exist at distance 3, but dispersion 3 probes only up to 2
    let (tx, ty, _) = fluid_step(&mut u, 0, 0, 3);
    assert_eq!((tx, ty), (0, 0));
    assert_eq!(u.element_at_coord(0, 0), Element::Water);
}

#[test]
fn fluid_tick_reports_displaced_handles() {
    let mut u = universe_with(&[(0, 0, Element::Water), (4, 7, Element::Water)]);
    let mut ps = vec![
        FluidParticle { x: 0, y: 0, dispersion: 3 },
        FluidParticle { x: 4, y: 7, dispersion: 3 },
    ];
    let displaced = fluid_tick(&mut u, &mut ps);
    assert_eq!(displaced, vec![None, None]);
    assert_eq!(ps[0], FluidParticle { x: 0, y: -1, dispersion: 3 });
    assert_eq!(ps[1], FluidParticle { x: 4, y: 6, dispersion: 3 });
    assert_eq!(u.element_at_coord(0, -1), Element::Water);
    assert_eq!(u.element_at_coord(4, 6), Element::Water);
}

#[test]
fn a_frame_runs_gravity_before_fluids() {
    let mut sim = particles_game::SimulationState::new();
    // sand above water: the grain falls first and takes the cell beside
    // the drop, then the drop flows
    sim.universe.set_element_at_coord(0, 0, Element::Sand);
    sim.universe.set_element_at_coord(0, -2, Element::Water);
    sim.grains.push(GravityParticle { x: 0, y: 0, velocity: -1 });
    sim.drops.push(FluidParticle { x: 0, y: -2, dispersion: 3 });
    let displaced = sim.tick();
    assert_eq!(displaced, vec![None]);
    assert_eq!(sim.grains[0], GravityParticle { x: 0, y: -1, velocity: -2 });
    assert_eq!(sim.drops[0], FluidParticle { x: 0, y: -3, dispersion: 3 });
    assert_eq!(sim.universe.element_at_coord(0, -1), Element::Sand);
    assert_eq!(sim.universe.element_at_coord(0, -3), Element::Water);
    assert_eq!(sim.universe.element_at_coord(0, 0), Element::Empty);
    assert_eq!(sim.universe.element_at_coord(0, -2), Element::Empty);
}

#[test]
fn paint_handles_survive_the_move() {
    let mut u = Universe::new();
    assert!(paint_cell(&mut u, Element::Sand, 0, 0, 0, 123));
    let (tx, ty, _) = gravity_step(&mut u, 0, 0, -1);
    assert_eq!(u.eid_at_coord(tx, ty), Some(123));
    assert_eq!(u.eid_at_coord(0, 0), None);
}
