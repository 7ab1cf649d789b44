use shellshock_solver::aggregate::{best_hits, bucket_of, into_angle_categories};
use shellshock_solver::controls::{prepare_calculation, CalcError, KeyEdges, Mode, Session, VK};
use shellshock_solver::geometry::{translate_target_position_relativ_to_origin, Cursor, Displacement, Rect};
use shellshock_solver::hit::Hit;
use shellshock_solver::order::sort_hits;
use shellshock_solver::search::{collect_angle_hits, collect_velocity_hits, push_velocity_hit};

fn as_pixels(d: &Displacement) -> (f64, f64) {
    (d.x_num as f64 / d.x_den as f64, d.y_num as f64 / d.y_den as f64)
}

fn pairs(hits: &[Hit]) -> Vec<(u32, i32)> {
    hits.iter().map(|h| (h.get_velocity(), h.get_angle())).collect()
}

fn empty_angle_grid() -> Vec<Vec<bool>> {
    vec![vec![false; 361]; 100]
}

#[test]
fn accessors_return_fields() {
    let h = Hit::new(42, -17);
    assert_eq!(h.get_velocity(), 42);
    assert_eq!(h.get_angle(), -17);
    let r = Rect::new(800, 600);
    assert_eq!((r.get_width(), r.get_height()), (800, 600));
    let c = Cursor::new(-3, 9);
    assert_eq!((c.get_x(), c.get_y()), (-3, 9));
}

#[test]
fn translate_identity_is_zero() {
    let rect = Rect::new(1000, 700);
    let p = Cursor::new(123, 456);
    let d = translate_target_position_relativ_to_origin(&rect, &p, &p).unwrap();
    assert_eq!(as_pixels(&d), (0.0, 0.0));
}

#[test]
fn translate_at_base_resolution_keeps_scale() {
    let rect = Rect::new(1768, 992);
    let p = Cursor::new(100, 500);
    let d = translate_target_position_relativ_to_origin(&rect, &p, &p).unwrap();
    assert_eq!(as_pixels(&d), (0.0, 0.0));
    let d = translate_target_position_relativ_to_origin(&rect, &Cursor::new(0, 0), &Cursor::new(10, 20)).unwrap();
    assert_eq!(as_pixels(&d), (10.0, -20.0));
}

#[test]
fn translate_at_half_resolution_doubles_and_flips() {
    let rect = Rect::new(884, 496);
    let d = translate_target_position_relativ_to_origin(&rect, &Cursor::new(0, 0), &Cursor::new(100, 100)).unwrap();
    assert_eq!(as_pixels(&d), (200.0, -200.0));
}

#[test]
fn translate_refuses_degenerate_extent() {
    let p = Cursor::new(1, 2);
    let q = Cursor::new(5, 7);
    assert!(translate_target_position_relativ_to_origin(&Rect::new(0, 600), &p, &q).is_none());
    assert!(translate_target_position_relativ_to_origin(&Rect::new(800, 0), &p, &q).is_none());
    assert!(translate_target_position_relativ_to_origin(&Rect::new(-5, 600), &p, &q).is_none());
}

#[test]
fn bucket_rounds_down_to_tens() {
    assert_eq!(bucket_of(15), 10);
    assert_eq!(bucket_of(-5), -10);
    assert_eq!(bucket_of(-15), -20);
    assert_eq!(bucket_of(0), 0);
    assert_eq!(bucket_of(-10), -10);
    assert_eq!(bucket_of(90), 90);
    assert_eq!(bucket_of(-90), -90);
    assert_eq!(bucket_of(i32::MIN), -2147483650);
}

#[test]
fn sort_orders_by_angle_or_velocity() {
    let hits = vec![Hit::new(5, 10), Hit::new(3, 10), Hit::new(9, -4), Hit::new(3, 2)];
    assert_eq!(pairs(&sort_hits(&hits, true)), vec![(9, -4), (3, 2), (3, 10), (5, 10)]);
    assert_eq!(pairs(&sort_hits(&hits, false)), vec![(3, 2), (3, 10), (5, 10), (9, -4)]);
}

#[test]
fn best_hits_is_sorted_prefix_of_five() {
    let hits = vec![
        Hit::new(50, 30),
        Hit::new(20, -40),
        Hit::new(10, 30),
        Hit::new(70, 0),
        Hit::new(60, 85),
        Hit::new(15, -40),
        Hit::new(99, 1),
    ];
    let best = best_hits(&hits);
    assert_eq!(pairs(&best), vec![(15, -40), (20, -40), (70, 0), (99, 1), (10, 30)]);
    let few = best_hits(&vec![Hit::new(3, 4)]);
    assert_eq!(pairs(&few), vec![(3, 4)]);
    assert!(best_hits(&Vec::new()).is_empty());
}

#[test]
fn categories_group_sort_and_truncate() {
    let mut hits = Vec::new();
    for v in (1..=7).rev() {
        hits.push(Hit::new(v * 10, 12));
    }
    hits.push(Hit::new(5, -5));
    hits.push(Hit::new(8, -15));
    hits.push(Hit::new(4, 19));
    let cats = into_angle_categories(&hits);
    let keys: Vec<i64> = cats.iter().map(|c| c.key).collect();
    assert_eq!(keys, vec![-20, -10, 10]);
    assert_eq!(pairs(&cats[0].hits), vec![(8, -15)]);
    assert_eq!(pairs(&cats[1].hits), vec![(5, -5)]);
    assert_eq!(pairs(&cats[2].hits), vec![(4, 19), (10, 12), (20, 12), (30, 12), (40, 12)]);
    for c in &cats {
        assert!(c.hits.len() <= 5);
        assert!(c.hits.windows(2).all(|w| w[0].get_velocity() <= w[1].get_velocity()));
    }
    assert!(into_angle_categories(&Vec::new()).is_empty());
}

#[test]
fn angle_sweep_rounds_half_degrees_away_from_zero() {
    let mut grid = empty_angle_grid();
    grid[0][0] = true; // velocity 1, -90.0
    grid[0][1] = true; // velocity 1, -89.5
    grid[4][179] = true; // velocity 5, -0.5
    grid[4][181] = true; // velocity 5, 0.5
    grid[99][360] = true; // velocity 100, 90.0
    grid[2][359] = true; // velocity 3, 89.5
    let hits = collect_angle_hits(&grid);
    assert_eq!(pairs(&hits), vec![(1, -90), (1, -90), (5, -1), (5, 1), (3, 90), (100, 90)]);
}

#[test]
fn angle_sweep_without_hits_is_empty() {
    assert!(collect_angle_hits(&empty_angle_grid()).is_empty());
}

#[test]
fn velocity_sweep_drops_adjacent_repeats_and_out_of_range() {
    let mut grid: Vec<Vec<u32>> = vec![Vec::new(); 181];
    grid[180] = vec![0, 3, 3, 4, 101, 4]; // angle 90
    grid[0] = vec![7, 7]; // angle -90
    grid[91] = vec![3]; // angle 1
    let hits = collect_velocity_hits(&grid);
    assert_eq!(pairs(&hits), vec![(3, 1), (3, 90), (4, 90), (7, -90)]);
}

#[test]
fn velocity_sweep_keeps_repeats_that_are_not_adjacent() {
    let mut grid: Vec<Vec<u32>> = vec![Vec::new(); 181];
    grid[100] = vec![6, 8, 6]; // angle 10
    let hits = collect_velocity_hits(&grid);
    assert_eq!(pairs(&hits), vec![(6, 10), (6, 10), (8, 10)]);
}

#[test]
fn push_velocity_hit_checks_range_and_last() {
    let mut hits = Vec::new();
    push_velocity_hit(&mut hits, 0, 5);
    push_velocity_hit(&mut hits, 101, 5);
    assert!(hits.is_empty());
    push_velocity_hit(&mut hits, 100, 5);
    push_velocity_hit(&mut hits, 100, 5);
    push_velocity_hit(&mut hits, 100, 6);
    push_velocity_hit(&mut hits, 1, 6);
    assert_eq!(pairs(&hits), vec![(100, 5), (100, 6), (1, 6)]);
}

#[test]
fn key_edges_fire_once_per_press() {
    let mut edges = KeyEdges::new();
    let mut down = vec![false; 7];
    down[0] = true;
    down[3] = true;
    let pressed = edges.poll(&down);
    assert_eq!(pressed, vec![true, false, false, true, false, false, false]);
    let pressed = edges.poll(&down);
    assert_eq!(pressed, vec![false; 7]);
    down[0] = false;
    let pressed = edges.poll(&down);
    assert_eq!(pressed, vec![false; 7]);
    down[0] = true;
    let pressed = edges.poll(&down);
    assert_eq!(pressed, vec![true, false, false, false, false, false, false]);
    assert_eq!(VK::Key1.index(), 0);
    assert_eq!(VK::Key7.index(), 6);
}

#[test]
fn calculation_needs_positions_and_extent() {
    let p = Some(Cursor::new(0, 0));
    let q = Some(Cursor::new(100, 100));
    let rect = Some(Rect::new(884, 496));
    assert_eq!(
        prepare_calculation(&None, &q, &None).unwrap_err(),
        CalcError::MissingInput { positions: true, extent: true }
    );
    assert_eq!(
        prepare_calculation(&p, &q, &None).unwrap_err(),
        CalcError::MissingInput { positions: false, extent: true }
    );
    assert_eq!(
        prepare_calculation(&p, &None, &rect).unwrap_err(),
        CalcError::MissingInput { positions: true, extent: false }
    );
    assert_eq!(prepare_calculation(&p, &q, &Some(Rect::new(0, 496))).unwrap_err(), CalcError::InvalidExtent);
    let d = prepare_calculation(&p, &q, &rect).unwrap();
    assert_eq!(as_pixels(&d), (200.0, -200.0));
}

#[test]
fn categories_keep_input_order_among_equal_velocities() {
    let hits = vec![Hit::new(5, 3), Hit::new(5, 1)];
    let cats = into_angle_categories(&hits);
    assert_eq!(cats.len(), 1);
    assert_eq!(cats[0].key, 0);
    assert_eq!(pairs(&cats[0].hits), vec![(5, 3), (5, 1)]);
}

#[test]
fn categories_cut_ties_by_input_order() {
    let hits = vec![
        Hit::new(9, 21),
        Hit::new(7, 29),
        Hit::new(7, 20),
        Hit::new(7, 25),
        Hit::new(3, 22),
        Hit::new(7, 23),
        Hit::new(7, 24),
    ];
    let cats = into_angle_categories(&hits);
    assert_eq!(cats.len(), 1);
    assert_eq!(cats[0].key, 20);
    assert_eq!(pairs(&cats[0].hits), vec![(3, 22), (7, 29), (7, 20), (7, 25), (7, 23)]);
}

#[test]
fn session_records_clears_and_switches() {
    let mut s = Session::new();
    assert_eq!(s.mode, Mode::Velocity);
    assert_eq!(s.prepare().unwrap_err(), CalcError::MissingInput { positions: true, extent: true });
    s.set_source(Cursor::new(0, 0));
    s.set_target(Cursor::new(100, 100));
    assert!(!s.cache_extent(Rect::new(0, 496)));
    assert_eq!(s.extent, None);
    assert!(s.cache_extent(Rect::new(884, 496)));
    assert_eq!(s.extent, Some(Rect::new(884, 496)));
    assert_eq!(as_pixels(&s.prepare().unwrap()), (200.0, -200.0));
    s.switch_mode();
    assert_eq!(s.mode, Mode::Angle);
    s.switch_mode();
    assert_eq!(s.mode, Mode::Velocity);
    s.clear();
    assert_eq!((s.source, s.target), (None, None));
    assert_eq!(s.extent, Some(Rect::new(884, 496)));
    assert_eq!(s.prepare().unwrap_err(), CalcError::MissingInput { positions: true, extent: false });
}
