use particles_game::Element;
use particles_game::PlaceOutcome;
use particles_game::THINNING_CHANCE;
use particles_game::Universe;
use particles_game::apply_brush;
use particles_game::erase_cell;
use particles_game::paint_cell;
use particles_game::paint_cell_random;

#[test]
fn paint_fills_a_free_cell() {
    let mut u = Universe::new();
    assert!(paint_cell(&mut u, Element::Stone, 2, 3, 99, 41));
    let c = u.cell_at_coord(2, 3);
    assert_eq!(c.element, Element::Stone);
    assert_eq!(c.eid, Some(41));
}

#[test]
fn paint_never_overwrites_an_occupied_cell() {
    let mut u = Universe::new();
    assert!(paint_cell(&mut u, Element::Stone, 0, 0, 0, 1));
    assert!(!paint_cell(&mut u, Element::Water, 0, 0, 0, 2));
    let c = u.cell_at_coord(0, 0);
    assert_eq!(c.element, Element::Stone);
    assert_eq!(c.eid, Some(1));
}

#[test]
fn sand_is_thinned_at_the_chance_threshold() {
    let mut u = Universe::new();
    assert!(paint_cell(&mut u, Element::Sand, 0, 0, THINNING_CHANCE - 1, 1));
    assert_eq!(u.element_at_coord(0, 0), Element::Sand);
    assert!(!paint_cell(&mut u, Element::Sand, 1, 0, THINNING_CHANCE, 2));
    assert_eq!(u.element_at_coord(1, 0), Element::Empty);
    assert!(!paint_cell(&mut u, Element::Sand, 2, 0, 99, 3));
    assert_eq!(u.element_at_coord(2, 0), Element::Empty);
}

#[test]
fn other_materials_ignore_the_draw() {
    let mut u = Universe::new();
    assert!(paint_cell(&mut u, Element::Water, 0, 0, 99, 1));
    assert!(paint_cell(&mut u, Element::Stone, 1, 0, 99, 2));
    assert!(paint_cell(&mut u, Element::Foundation, 2, 0, 99, 3));
    assert_eq!(u.element_at_coord(0, 0), Element::Water);
    assert_eq!(u.element_at_coord(1, 0), Element::Stone);
    assert_eq!(u.element_at_coord(2, 0), Element::Foundation);
}

#[test]
fn erase_returns_the_handle_and_clears() {
    let mut u = Universe::new();
    assert!(paint_cell(&mut u, Element::Stone, -4, 9, 0, 77));
    assert_eq!(erase_cell(&mut u, -4, 9), Some(77));
    let c = u.cell_at_coord(-4, 9);
    assert_eq!(c.element, Element::Empty);
    assert_eq!(c.eid, None);
}

#[test]
fn erasing_an_empty_cell_changes_nothing() {
    let mut u = Universe::new();
    assert_eq!(erase_cell(&mut u, 7, 7), None);
    assert_eq!(u.element_at_coord(7, 7), Element::Empty);
    assert_eq!(u.eid_at_coord(7, 7), None);
    // a second erase of the same cell is a no-op too
    assert_eq!(erase_cell(&mut u, 7, 7), None);
    assert_eq!(u.element_at_coord(7, 7), Element::Empty);
}

#[test]
fn painting_over_an_occupied_cell_twice_is_a_no_op() {
    let mut u = Universe::new();
    assert!(paint_cell(&mut u, Element::Stone, 0, 0, 0, 5));
    let before = u.cell_at_coord(0, 0);
    assert!(!paint_cell(&mut u, Element::Stone, 0, 0, 0, 6));
    let after = u.cell_at_coord(0, 0);
    assert_eq!(after.element, before.element);
    assert_eq!(after.eid, before.eid);
}

#[test]
fn brush_stroke_paints_every_free_cell() {
    let mut u = Universe::new();
    let coords = vec![(0, 0), (1, 0), (0, 1), (1, 1)];
    let draws = vec![0, 0, 0, 0];
    let handles = vec![10, 11, 12, 13];
    let outcomes = apply_brush(&mut u, Element::Sand, &coords, &draws, &handles);
    assert_eq!(outcomes, vec![
        PlaceOutcome::Painted,
        PlaceOutcome::Painted,
        PlaceOutcome::Painted,
        PlaceOutcome::Painted,
    ]);
    assert_eq!(u.cell_at_coord(0, 0).eid, Some(10));
    assert_eq!(u.cell_at_coord(1, 0).eid, Some(11));
    assert_eq!(u.cell_at_coord(0, 1).eid, Some(12));
    assert_eq!(u.cell_at_coord(1, 1).eid, Some(13));
}

#[test]
fn brush_stroke_skips_out_of_world_and_occupied_cells() {
    let mut u = Universe::new();
    assert!(paint_cell(&mut u, Element::Stone, 1, 0, 0, 9));
    let coords = vec![(65, 0), (0, 0), (1, 0)];
    let draws = vec![0, 0, 0];
    let handles = vec![20, 21, 22];
    let outcomes = apply_brush(&mut u, Element::Sand, &coords, &draws, &handles);
    assert_eq!(outcomes, vec![
        PlaceOutcome::Skipped,
        PlaceOutcome::Painted,
        PlaceOutcome::Skipped,
    ]);
    assert_eq!(u.element_at_coord(0, 0), Element::Sand);
    assert_eq!(u.element_at_coord(1, 0), Element::Stone);
    assert_eq!(u.cell_at_coord(1, 0).eid, Some(9));
}

#[test]
fn brush_stroke_thins_sand_by_the_draws() {
    let mut u = Universe::new();
    let coords = vec![(0, 0), (1, 0), (2, 0)];
    let draws = vec![79, 80, 0];
    let handles = vec![1, 2, 3];
    let outcomes = apply_brush(&mut u, Element::Sand, &coords, &draws, &handles);
    assert_eq!(outcomes, vec![
        PlaceOutcome::Painted,
        PlaceOutcome::Skipped,
        PlaceOutcome::Painted,
    ]);
    assert_eq!(u.element_at_coord(0, 0), Element::Sand);
    assert_eq!(u.element_at_coord(1, 0), Element::Empty);
    assert_eq!(u.element_at_coord(2, 0), Element::Sand);
}

#[test]
fn erase_stroke_retires_handles() {
    let mut u = Universe::new();
    assert!(paint_cell(&mut u, Element::Stone, 0, 0, 0, 31));
    assert!(paint_cell(&mut u, Element::Water, 1, 0, 0, 32));
    let coords = vec![(0, 0), (1, 0), (2, 0), (70, 0)];
    let draws = vec![0, 0, 0, 0];
    let handles = vec![0, 0, 0, 0];
    let outcomes = apply_brush(&mut u, Element::Empty, &coords, &draws, &handles);
    assert_eq!(outcomes, vec![
        PlaceOutcome::Erased(Some(31)),
        PlaceOutcome::Erased(Some(32)),
        PlaceOutcome::Skipped,
        PlaceOutcome::Skipped,
    ]);
    assert_eq!(u.element_at_coord(0, 0), Element::Empty);
    assert_eq!(u.element_at_coord(1, 0), Element::Empty);
    assert_eq!(u.eid_at_coord(0, 0), None);
}

#[test]
fn random_paint_always_places_unthinned_materials() {
    let mut u = Universe::new();
    for i in 0..16 {
        assert!(paint_cell_random(&mut u, Element::Stone, i, 0, i as u64));
        assert_eq!(u.element_at_coord(i, 0), Element::Stone);
        assert_eq!(u.eid_at_coord(i, 0), Some(i as u64));
    }
    // and never an occupied cell
    assert!(!paint_cell_random(&mut u, Element::Stone, 0, 0, 99));
}

#[test]
fn random_paint_thins_sand_but_not_everywhere() {
    let mut u = Universe::new();
    let mut painted = 0;
    let mut skipped = 0;
    for x in -50..50 {
        for y in -50..-40 {
            if paint_cell_random(&mut u, Element::Sand, x, y, 1) {
                painted += 1;
            } else {
                skipped += 1;
            }
        }
    }
    // 1000 independent draws at 80%: statistically certain to see both
    assert!(painted > 0);
    assert!(skipped > 0);
    assert!(painted > skipped);
}
