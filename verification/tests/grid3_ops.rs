use double_sided_vec::Grid3;

fn grid3_snapshot(g: &Grid3<i32>) -> Vec<(isize, isize, isize, i32)> {
    let mut out = Vec::new();
    for x in g.range_x() {
        for y in g.range_y() {
            for z in g.range_z() {
                out.push((x, y, z, *g.get((x, y, z)).unwrap()));
            }
        }
    }
    out
}

#[test]
fn grid3_new_shape_and_values() {
    let g = Grid3::new(3, 3, 3, 4);
    assert_eq!(g.size_x, 3);
    assert_eq!(g.center_x, 1);
    assert_eq!(g.center_y, 1);
    assert_eq!(g.center_z, 1);
    assert_eq!(g.lens_x(), (-1, 2));
    assert_eq!(g.lens_y(), (-1, 2));
    assert_eq!(g.lens_z(), (-1, 2));
    assert_eq!(g.get((0, 0, 0)), Some(&4));
    assert_eq!(g.get((-1, 1, -1)), Some(&4));
    assert_eq!(g.get((2, 0, 0)), None);
    assert_eq!(g.get((0, 0, -2)), None);
}

#[test]
fn grid3_new_center_verbatim() {
    let g = Grid3::new_center(2, 2, 2, 0, 1, 5, 3);
    assert_eq!(g.center_x, 0);
    assert_eq!(g.center_y, 1);
    assert_eq!(g.center_z, 5);
    assert_eq!(g.lens_x(), (0, 2));
    assert_eq!(g.lens_y(), (-1, 1));
    assert_eq!(g.lens_z(), (-5, -3));
    assert_eq!(g.get((0, 0, -4)), Some(&3));
    assert_eq!(g.get((0, 0, 0)), None);
}

#[test]
fn grid3_from_elem_is_cube() {
    let g = Grid3::from_elem(2, 4);
    assert_eq!((g.size_x, g.size_y, g.size_z), (4, 4, 4));
    assert_eq!((g.center_x, g.center_y, g.center_z), (2, 2, 2));
    assert_eq!(g.lens_x(), (-2, 2));
    assert_eq!(g.get((-2, 1, -1)), Some(&2));
}

#[test]
fn grid3_expansions_keep_shape_uniform() {
    let mut g = Grid3::new(2, 2, 2, 1);
    g.expand_neg_x(1);
    g.expand_pos_x(2);
    g.expand_neg_y(1);
    g.expand_pos_y(1);
    g.expand_neg_z(2);
    g.expand_pos_z(1);
    assert_eq!((g.size_x, g.size_y, g.size_z), (5, 4, 5));
    assert_eq!((g.center_x, g.center_y, g.center_z), (2, 2, 3));
    let planes = g.grid();
    let (lo_x, hi_x) = planes.lens();
    assert_eq!(hi_x - lo_x, 5);
    let first_plane = planes.index(lo_x).lens();
    for x in lo_x..hi_x {
        let plane = planes.index(x);
        assert_eq!(plane.lens(), first_plane);
        let (lo_y, hi_y) = plane.lens();
        let first_row = plane.index(lo_y).lens();
        for y in lo_y..hi_y {
            assert_eq!(plane.index(y).lens(), first_row);
        }
    }
    // old cells kept their value, new ones hold the default
    assert_eq!(g.get((0, 0, 0)), Some(&1));
    assert_eq!(g.get((-2, 0, 0)), Some(&0));
    assert_eq!(g.get((0, -2, 0)), Some(&0));
    assert_eq!(g.get((0, 0, -3)), Some(&0));
}

#[test]
fn grid3_set_center_y_writes_z_field() {
    let mut g = Grid3::new(3, 3, 3, 0);
    g.set_center_x(2);
    assert_eq!(g.center_x, 2);
    assert_eq!(g.lens_x(), (-2, 1));
    g.set_center_y(0);
    // the y setter stores into the z field and re-bases the y axis markers
    assert_eq!(g.center_z, 0);
    assert_eq!(g.center_y, 1);
    assert_eq!(g.lens_y(), (0, 3));
    assert_eq!(g.lens_z(), (-1, 2));
}

#[test]
fn grid3_swap_twice_restores() {
    let mut g = Grid3::new(3, 3, 3, 0);
    *g.index_mut((1, 0, -1)) = 6;
    *g.index_mut((-1, 1, 1)) = 7;
    let before = grid3_snapshot(&g);
    g.swap_cells(((1, 0, -1), (-1, 1, 1)));
    assert_eq!(g.get((1, 0, -1)), Some(&7));
    assert_eq!(g.get((-1, 1, 1)), Some(&6));
    g.swap_cells(((1, 0, -1), (-1, 1, 1)));
    assert_eq!(grid3_snapshot(&g), before);
}

#[test]
fn grid3_move_and_back_leaves_default() {
    let mut g = Grid3::new(3, 3, 3, 0);
    *g.index_mut((0, 0, 0)) = 5;
    *g.index_mut((1, 1, 1)) = 8;
    let before = grid3_snapshot(&g);
    g.move_cell(((0, 0, 0), (1, 1, 1)));
    assert_eq!(g.get((1, 1, 1)), Some(&5));
    assert_eq!(g.get((0, 0, 0)), Some(&0));
    g.move_cell(((1, 1, 1), (0, 0, 0)));
    assert_eq!(g.get((0, 0, 0)), Some(&5));
    assert_eq!(g.get((1, 1, 1)), Some(&0));
    assert_ne!(grid3_snapshot(&g), before);
}

#[test]
fn grid3_cells_flatten_in_order() {
    let mut g = Grid3::new(2, 1, 2, 0);
    let mut next = 1;
    for x in g.range_x() {
        for y in g.range_y() {
            for z in g.range_z() {
                *g.index_mut((x, y, z)) = next;
                next += 1;
            }
        }
    }
    let flat: Vec<i32> = g.cells().into_iter().copied().collect();
    assert_eq!(flat, vec![1, 2, 3, 4]);
    assert_eq!(g.grid_mut().lens(), (-1, 1));
    assert_eq!(g.index((0, 0, 0)), &4);
}

#[test]
fn grid3_empty_bounds() {
    let empty: Grid3<i32> = Grid3::default();
    assert_eq!(empty.lens_x(), (0, 0));
    assert_eq!(empty.lens_y(), (0, 0));
    assert_eq!(empty.lens_z(), (0, 0));
    let r = empty.range_z();
    assert_eq!((r.start, r.end), (0, 0));
    assert_eq!(empty.get((0, 0, 0)), None);
}
