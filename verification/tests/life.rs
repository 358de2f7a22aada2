use std::rc::Rc;

use life_sim::life::make_seed;
use life_sim::life::seed_from_bytes;
use life_sim::life::Point;
use life_sim::life::World;

fn world_with(width: usize, height: usize, live: &[(usize, usize)]) -> World {
    let seed: Vec<Point> = live.iter().map(|&(x, y)| Point::new_xy(x, y)).collect();
    let mut w = World::new(width, height, seed, "D".to_string(), "A".to_string());
    w.init();
    w
}

fn live_cells(w: &World) -> Vec<(usize, usize)> {
    let mut v = vec![];
    for y in 0..=w.height() {
        for x in 0..=w.width() {
            if w.cell(x, y) {
                v.push((x, y));
            }
        }
    }
    v
}

#[test]
fn new_world_is_dead_and_one_larger() {
    let w = World::new(4, 3, vec![], "D".to_string(), "A".to_string());
    assert_eq!(w.width(), 4);
    assert_eq!(w.height(), 3);
    assert!(live_cells(&w).is_empty());
    assert!(!w.cell(4, 3));
}

#[test]
fn init_places_the_seed() {
    let w = world_with(5, 5, &[(1, 2), (3, 4), (1, 2)]);
    assert_eq!(live_cells(&w), vec![(1, 2), (3, 4)]);
}

#[test]
fn seeds_off_the_board_or_alive_are_ignored() {
    let alive_seed = Point::new(2, 2, true, Rc::new(vec![]));
    let in_world = Point::new(1, 1, false, Rc::new(vec![vec![false]]));
    let seed = vec![alive_seed, in_world, Point::new_xy(7, 7), Point::new_xy(0, 0)];
    let mut w = World::new(5, 5, seed, "D".to_string(), "A".to_string());
    w.init();
    assert_eq!(live_cells(&w), vec![(0, 0)]);
}

#[test]
fn neighbors_are_counted_around_a_point() {
    let grid = vec![
        vec![true, true, false],
        vec![true, false, true],
        vec![false, true, true],
    ];
    let world = Rc::new(grid);
    assert_eq!(Point::new(1, 1, false, world.clone()).get_neighbor(), 6);
    assert_eq!(Point::new(0, 0, true, world.clone()).get_neighbor(), 2);
    assert_eq!(Point::new(0, 1, true, world.clone()).get_neighbor(), 3);
    assert_eq!(Point::new(1, 0, true, world.clone()).get_neighbor(), 3);
}

#[test]
fn conways_rule() {
    // alive with 2 or 3 lives, dead with 3 is born
    let grid = vec![
        vec![true, true, false],
        vec![true, false, false],
        vec![false, false, false],
    ];
    let world = Rc::new(grid);
    assert!(Point::new(1, 1, false, world.clone()).check_around());
    assert!(Point::new(0, 0, true, world.clone()).check_around());
    assert!(!Point::new(1, 1, true, Rc::new(vec![vec![false; 3]; 3])).check_around());
    let crowded = Rc::new(vec![vec![true; 3]; 3]);
    assert!(!Point::new(1, 1, true, crowded.clone()).check_around());
    assert!(!Point::new(1, 1, false, crowded.clone()).check_around());
    let two = Rc::new(vec![vec![true, false, false], vec![false, false, false], vec![false, false, true]]);
    assert!(Point::new(1, 1, true, two.clone()).check_around());
    assert!(!Point::new(1, 1, false, two.clone()).check_around());
}

#[test]
fn blinker_oscillates_and_block_stays() {
    let mut w = world_with(5, 5, &[(1, 2), (2, 2), (3, 2)]);
    w.update();
    assert_eq!(live_cells(&w), vec![(2, 1), (2, 2), (2, 3)]);
    w.update();
    assert_eq!(live_cells(&w), vec![(1, 2), (2, 2), (3, 2)]);
    let mut b = world_with(4, 4, &[(1, 1), (2, 1), (1, 2), (2, 2)]);
    b.update();
    assert_eq!(live_cells(&b), vec![(1, 1), (2, 1), (1, 2), (2, 2)]);
}

#[test]
fn the_extra_column_and_row_stay_dead() {
    // a vertical blinker on the last column would grow into the extra column
    let mut w = world_with(3, 3, &[(2, 0), (2, 1), (2, 2)]);
    w.update();
    assert_eq!(live_cells(&w), vec![(1, 1), (2, 1)]);
}

#[test]
fn a_dead_board_stays_dead() {
    let mut w = world_with(6, 6, &[]);
    for _ in 0..3 {
        w.update();
        assert!(live_cells(&w).is_empty());
        assert!(!w.draw().any_alive);
    }
}

#[test]
fn draw_lays_out_the_board_row_by_row() {
    let w = world_with(3, 2, &[(2, 1)]);
    let f = w.draw();
    assert!(f.any_alive);
    assert_eq!(f.rows.len(), 2);
    assert_eq!(f.rows[0].len(), 3);
    for (y, row) in f.rows.iter().enumerate() {
        for (x, g) in row.iter().enumerate() {
            assert_eq!(g.col as usize, 2 * x);
            assert_eq!(g.row as usize, y);
            assert_eq!(g.alive, x == 2 && y == 1);
        }
    }
    assert_eq!(w.symbol(true), "A");
    assert_eq!(w.symbol(false), "D");
}

#[test]
fn seeds_land_on_the_board() {
    let (s, points) = make_seed(10, 8, 200, Some(7));
    assert_eq!(s, 7);
    assert_eq!(points.len(), 200);
    let mut distinct = std::collections::HashSet::new();
    for p in &points {
        assert!(p.x < 10 && p.y < 8);
        assert!(!p.is_alive);
        assert!(p.world.is_empty());
        distinct.insert((p.x, p.y));
    }
    assert!(distinct.len() > 1);
    let (_, again) = make_seed(10, 8, 200, Some(7));
    let a: Vec<(usize, usize)> = points.iter().map(|p| (p.x, p.y)).collect();
    let b: Vec<(usize, usize)> = again.iter().map(|p| (p.x, p.y)).collect();
    assert_eq!(a, b);
    let (_, none) = make_seed(0, 0, 0, None);
    assert!(none.is_empty());
    let (_, ones) = make_seed(1, 1, 5, None);
    assert!(ones.iter().all(|p| p.x == 0 && p.y == 0));
}

#[test]
fn points_compare_like_their_fields() {
    let a = Point::new(1, 2, false, Rc::new(vec![vec![true, false]]));
    let b = Point::new(1, 2, false, Rc::new(vec![vec![true, false]]));
    let c = Point::new(1, 2, false, Rc::new(vec![vec![true, true]]));
    let d = Point::new(1, 2, false, Rc::new(vec![vec![true], vec![false]]));
    assert!(a.eq_point(&b));
    assert!(!a.eq_point(&c));
    assert!(!a.eq_point(&d));
    assert!(!a.eq_point(&Point::new_xy(1, 2)));
    assert!(Point::new_xy(1, 2).eq_point(&Point::new(1, 2, false, Rc::new(vec![]))));
    assert!(!Point::new_xy(1, 2).eq_point(&Point::new_xy(2, 1)));
}

#[test]
fn seed_bytes_come_first_then_zeros() {
    let r = seed_from_bytes([1, 2, 3, 4, 5, 6, 7, 8]);
    assert_eq!(&r[..8], &[1, 2, 3, 4, 5, 6, 7, 8]);
    assert!(r[8..].iter().all(|&b| b == 0));
    assert_eq!(seed_from_bytes([0; 8]), [0u8; 32]);
}
