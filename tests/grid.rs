use twinecraft::grid::{HeightChunk, CELLS, CHUNK, HEIGHT};
use twinecraft::point::Pos;

fn only(c: (usize, usize, usize)) -> HeightChunk {
    HeightChunk::for_each(|x, y, z| (x, y, z) == c)
}

#[test]
fn value_fills_every_cell() {
    let g = HeightChunk::value(true);
    assert_eq!(g.get((0, 0, 0)), Some(&true));
    assert_eq!(g.get((CHUNK - 1, HEIGHT - 1, CHUNK - 1)), Some(&true));
    let e = HeightChunk::value(false);
    assert_eq!(e.get((5, 7, 9)), Some(&false));
    assert_eq!(CELLS, CHUNK * HEIGHT * CHUNK);
}

#[test]
fn for_each_stores_generator_values() {
    let g = HeightChunk::for_each(|x, y, z| (x + 2 * y + 3 * z) % 5 == 0);
    for &(x, y, z) in &[(0, 0, 0), (1, 2, 3), (127, 15, 127), (5, 0, 0), (64, 8, 31)] {
        assert_eq!(g.get((x, y, z)), Some(&((x + 2 * y + 3 * z) % 5 == 0)));
    }
}

#[test]
fn get_returns_last_written_value() {
    let mut g = HeightChunk::value(false);
    g.set((3, 4, 5), true);
    assert_eq!(g.get((3, 4, 5)), Some(&true));
    assert_eq!(g.get((3, 4, 6)), Some(&false));
    assert_eq!(g.get((4, 4, 5)), Some(&false));
    g.set((3, 4, 5), false);
    assert_eq!(g.get((3, 4, 5)), Some(&false));
}

#[test]
fn set_outside_is_a_no_op() {
    let mut g = HeightChunk::value(false);
    g.set((CHUNK, 0, 0), true);
    g.set((0, HEIGHT, 0), true);
    assert_eq!(g.positions(), Vec::<(usize, usize, usize)>::new());
}

#[test]
fn get_mut_changes_one_cell() {
    let mut g = HeightChunk::value(true);
    if let Some(b) = g.get_mut((2, 3, 4)) {
        *b = false;
    }
    assert_eq!(g.get((2, 3, 4)), Some(&false));
    assert_eq!(g.get((2, 3, 5)), Some(&true));
    assert!(g.get_mut((0, 16, 0)).is_none());
}

#[test]
fn out_of_bounds_is_absent_and_empty() {
    let g = HeightChunk::value(true);
    assert_eq!(g.get((CHUNK, 0, 0)), None);
    assert_eq!(g.get((0, HEIGHT, 0)), None);
    assert_eq!(g.get((0, 0, CHUNK)), None);
    assert!(g.is_empty_raw((0, HEIGHT, 0)));
    assert!(!g.is_empty_raw((0, HEIGHT - 1, 0)));
    // -0.6 rounds to -1, outside the grid
    assert!(g.is_empty(Pos::new(-600, 0, 0)));
    assert_eq!(g.getp(Pos::new(-600, 0, 0)), None);
    // -0.4 rounds to 0, inside
    assert!(!g.is_empty(Pos::new(-400, 0, 0)));
    assert!(g.is_empty(Pos::new(0, 15500, 0)));
    assert!(g.is_empty(Pos::new(127_499, 0, 127_500)));
    assert!(!g.is_empty(Pos::new(127_499, 0, 127_499)));
}

#[test]
fn to_index_rounds_half_away_from_zero() {
    assert_eq!(HeightChunk::to_index(Pos::new(1500, 2499, -500)), (2, 2, -1));
    assert_eq!(HeightChunk::to_index(Pos::new(499, -499, 0)), (0, 0, 0));
    assert_eq!(HeightChunk::to_index(Pos::new(-1500, 10_000, 2501)), (-2, 10, 3));
    assert_eq!(
        HeightChunk::to_index(Pos::new(i64::MAX, i64::MIN, 0)),
        (i64::MAX / 1000 + 1, -(i64::MAX / 1000 + 1), 0)
    );
}

#[test]
fn getp_reads_the_rounded_cell() {
    let g = only((2, 3, 4));
    assert_eq!(g.getp(Pos::new(2400, 2600, 4000)), Some(&true));
    assert_eq!(g.getp(Pos::new(2600, 2600, 4000)), Some(&false));
    assert!(!g.is_empty(Pos::new(1500, 3499, 3500)));
}

#[test]
fn exposed_positions_use_the_top_face_only() {
    let g = HeightChunk::for_each(|x, y, z| (x == 0 && z == 0 && y < 3) || (x == 1 && z == 2 && y == 15));
    assert_eq!(g.positions(), vec![(0, 2, 0), (1, 15, 2)]);
}

#[test]
fn exposed_positions_of_a_full_grid_are_the_top_layer() {
    let g = HeightChunk::value(true);
    let p = g.positions();
    assert_eq!(p.len(), CHUNK * CHUNK);
    assert!(p.iter().all(|c| c.1 == HEIGHT - 1));
    assert_eq!(p[0], (0, 15, 0));
    assert_eq!(p[1], (0, 15, 1));
}

#[test]
fn exposed_positions_repeat() {
    let g = HeightChunk::for_each(|x, y, z| y < (x + z) % 7);
    assert_eq!(g.positions(), g.positions());
}

#[test]
fn ray_from_inside_a_solid_cell_hits_it_first() {
    let g = HeightChunk::for_each(|x, _y, _z| x >= 3);
    assert_eq!(
        g.ray(Pos::new(5200, 1000, 1000), Pos::new(-1000, 0, 0), 5),
        Some(((5, 1, 1), true))
    );
}

#[test]
fn ray_without_solid_cells_is_absent() {
    let g = only((10, 1, 1));
    assert_eq!(g.ray(Pos::new(0, 1000, 1000), Pos::new(1000, 0, 0), 5), None);
    assert_eq!(g.ray(Pos::new(0, 1000, 1000), Pos::new(0, 1000, 0), 5), None);
}

#[test]
fn ray_samples_through_the_last_step() {
    let g = only((5, 1, 1));
    assert_eq!(g.ray(Pos::new(0, 1000, 1000), Pos::new(1000, 0, 0), 4), None);
    assert_eq!(
        g.ray(Pos::new(0, 1000, 1000), Pos::new(1000, 0, 0), 5),
        Some(((5, 1, 1), true))
    );
}

#[test]
fn ray_finds_the_nearest_solid_cell() {
    let g = HeightChunk::for_each(|x, y, z| y == 1 && z == 1 && (x == 4 || x == 2));
    assert_eq!(
        g.ray(Pos::new(0, 1000, 1000), Pos::new(1000, 0, 0), 5),
        Some(((2, 1, 1), true))
    );
}

#[test]
fn single_voxel_is_exposed_then_dug() {
    let mut g = only((1, 1, 1));
    assert_eq!(g.positions(), vec![(1, 1, 1)]);
    let hit = g.dig(Pos::new(-2000, 1000, 1000), Pos::new(1000, 0, 0), 5);
    assert_eq!(hit, Some((1, 1, 1)));
    assert_eq!(g.get((1, 1, 1)), Some(&false));
    assert_eq!(g.positions(), Vec::<(usize, usize, usize)>::new());
}

#[test]
fn dig_that_misses_changes_nothing() {
    let mut g = only((1, 1, 1));
    assert_eq!(g.dig(Pos::new(-2000, 3000, 1000), Pos::new(1000, 0, 0), 5), None);
    assert_eq!(g.positions(), vec![(1, 1, 1)]);
}
