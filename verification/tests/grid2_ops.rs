use double_sided_vec::Grid2;

fn grid2_snapshot(g: &Grid2<i32>) -> Vec<(isize, isize, i32)> {
    let mut out = Vec::new();
    for x in g.range_x() {
        for y in g.range_y() {
            out.push((x, y, *g.get((x, y)).unwrap()));
        }
    }
    out
}

#[test]
fn grid2_new_centers_and_expand_pos_x() {
    let mut g = Grid2::new(3, 3, 0);
    assert_eq!(g.center_x(), 1);
    assert_eq!(g.center_y(), 1);
    let before = grid2_snapshot(&g);
    g.expand_pos_x(2);
    assert_eq!(g.size_x(), 5);
    let r = g.range_x();
    assert_eq!((r.start, r.end), (-1, 4));
    for (x, y, v) in before {
        assert_eq!(g.get((x, y)), Some(&v));
        assert_eq!(v, 0);
    }
}

#[test]
fn grid2_expansions_keep_rows_uniform() {
    let mut g = Grid2::new(2, 3, 7);
    g.expand_neg_x(2);
    g.expand_pos_y(1);
    g.expand_neg_y(2);
    g.expand_pos_x(3);
    let rows = g.grid();
    let (lo, hi) = rows.lens();
    assert_eq!(hi - lo, 7);
    let first = rows.index(lo).lens();
    for x in lo..hi {
        assert_eq!(rows.index(x).lens(), first);
    }
    assert_eq!(g.size_y(), 6);
    assert_eq!(first.1 - first.0, 6);
}

#[test]
fn grid2_expand_neg_shifts_coordinates() {
    let mut g = Grid2::new(2, 2, 1);
    g.expand_neg_x(1);
    g.expand_neg_y(1);
    assert_eq!(g.size_x(), 3);
    assert_eq!(g.center_x(), 2);
    assert_eq!(g.size_y(), 3);
    assert_eq!(g.center_y(), 2);
    // new cells on the negative sides hold the default, old ones keep 1
    assert_eq!(g.get((-2, -2)), Some(&0));
    assert_eq!(g.get((-1, -1)), Some(&1));
    assert_eq!(g.get((0, 0)), Some(&1));
}

#[test]
fn grid2_get_absent_out_of_range() {
    let g = Grid2::new(3, 3, 0);
    assert_eq!(g.get((2, 0)), None);
    assert_eq!(g.get((0, 2)), None);
    assert_eq!(g.get((-2, 0)), None);
    assert_eq!(g.get((5, 5)), None);
    let empty: Grid2<i32> = Grid2::default();
    assert_eq!(empty.get((0, 0)), None);
    assert_eq!(empty.lens_y(), (0, 0));
    let r = empty.range_y();
    assert_eq!((r.start, r.end), (0, 0));
}

#[test]
fn grid2_swap_twice_restores() {
    let mut g = Grid2::new(3, 3, 0);
    *g.get_mut((1, 1)).unwrap() = 5;
    *g.get_mut((-1, 0)).unwrap() = 8;
    let before = grid2_snapshot(&g);
    g.swap_cells(((1, 1), (-1, 0)));
    assert_eq!(g.get((1, 1)), Some(&8));
    assert_eq!(g.get((-1, 0)), Some(&5));
    g.swap_cells(((1, 1), (-1, 0)));
    assert_eq!(grid2_snapshot(&g), before);
}

#[test]
fn grid2_move_and_back_leaves_default() {
    let mut g = Grid2::new(3, 3, 0);
    *g.get_mut((0, 0)).unwrap() = 5;
    *g.get_mut((1, 1)).unwrap() = 8;
    let before = grid2_snapshot(&g);
    g.move_cell(((0, 0), (1, 1)));
    assert_eq!(g.get((1, 1)), Some(&5));
    assert_eq!(g.get((0, 0)), Some(&0));
    g.move_cell(((1, 1), (0, 0)));
    assert_eq!(g.get((0, 0)), Some(&5));
    assert_eq!(g.get((1, 1)), Some(&0));
    assert_ne!(grid2_snapshot(&g), before);
}

#[test]
fn grid2_set_centers_rebase() {
    let mut g = Grid2::new(3, 3, 9);
    g.set_center_x(0);
    g.set_center_y(2);
    assert_eq!(g.center_x(), 0);
    assert_eq!(g.center_y(), 2);
    assert_eq!(g.lens_x(), (0, 3));
    assert_eq!(g.lens_y(), (-2, 1));
    assert_eq!(g.get((0, -2)), Some(&9));
    assert_eq!(g.get((-1, 0)), None);
}

#[test]
fn grid2_cells_flatten_in_order() {
    let mut g = Grid2::new(2, 2, 0);
    *g.get_mut((-1, -1)).unwrap() = 1;
    *g.get_mut((-1, 0)).unwrap() = 2;
    *g.get_mut((0, -1)).unwrap() = 3;
    *g.get_mut((0, 0)).unwrap() = 4;
    let flat: Vec<i32> = g.cells().into_iter().copied().collect();
    assert_eq!(flat, vec![1, 2, 3, 4]);
    assert_eq!(g.grid_mut().lens(), (-1, 1));
    assert_eq!(g.index((0, 0)), &4);
}
