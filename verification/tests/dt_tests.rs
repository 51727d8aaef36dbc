use mapgen_core::dt::{dt_sqr, DT_FAR};

#[test]
fn empty_mask_is_everywhere_far() {
    let mask = vec![false; 4 * 3];
    let d = dt_sqr(&mask, 4, 3);
    for v in d.iter() {
        assert_eq!(*v, DT_FAR);
    }
}

#[test]
fn single_source_gives_exact_squared_distances() {
    // 5 x 4 grid, source at (1, 2); index is x * height + y.
    let h = 4usize;
    let mut mask = vec![false; 5 * 4];
    mask[1 * h + 2] = true;
    let d = dt_sqr(&mask, 5, 4);
    for x in 0..5i64 {
        for y in 0..4i64 {
            let expect = ((x - 1) * (x - 1) + (y - 2) * (y - 2)) as u64;
            assert_eq!(d[(x as usize) * h + (y as usize)], expect);
        }
    }
}

#[test]
fn two_sources_take_the_minimum() {
    let h = 5usize;
    let mut mask = vec![false; 6 * 5];
    mask[0 * h + 0] = true;
    mask[5 * h + 4] = true;
    let d = dt_sqr(&mask, 6, 5);
    for x in 0..6i64 {
        for y in 0..5i64 {
            let d1 = x * x + y * y;
            let d2 = (x - 5) * (x - 5) + (y - 4) * (y - 4);
            let expect = if d1 < d2 { d1 } else { d2 } as u64;
            assert_eq!(d[(x as usize) * h + (y as usize)], expect);
        }
    }
}

#[test]
fn source_cells_are_at_distance_zero() {
    let h = 3usize;
    let mut mask = vec![false; 3 * 3];
    mask[1 * h + 1] = true;
    let d = dt_sqr(&mask, 3, 3);
    assert_eq!(d[1 * h + 1], 0);
    assert_eq!(d[0 * h + 0], 2);
    assert_eq!(d[2 * h + 1], 1);
}
