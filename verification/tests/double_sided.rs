use double_sided_vec::DoubleSidedVec;

#[test]
fn index() {
    let mut dv = DoubleSidedVec::from_vec(3, vec![42, 14, 51, 034, 1, 6, 12]);
    for i in 0..dv.len() {
        let logical = i as isize - 3;
        *dv.get_mut(logical).unwrap() = 100;
    }
    let ref_dv = DoubleSidedVec::from_elem(100, 7);
    assert_eq!(dv, ref_dv);
}

#[test]
fn fill_grow_scenario() {
    let mut dv = DoubleSidedVec::from_elem(0, 7);
    assert_eq!(dv.lens(), (-3, 4));
    dv.push_back(9);
    assert_eq!(dv.lens(), (-4, 4));
    assert_eq!(dv.get(-4), Some(&9));
    dv.push_front(5);
    assert_eq!(dv.lens(), (-4, 5));
    assert_eq!(dv.get(4), Some(&5));
}

#[test]
fn get_agrees_with_index_in_range() {
    let dv = DoubleSidedVec::from_vec(2, vec![10, 20, 30, 40, 50]);
    let (lo, hi) = dv.lens();
    assert_eq!((lo, hi), (-2, 3));
    for i in lo..hi {
        let via_get = dv.get(i).copied();
        let via_index = *dv.index(i);
        assert_eq!(via_get, Some(via_index));
    }
    assert_eq!(*dv.index(0), 30);
    assert_eq!(*dv.index(-2), 10);
    assert_eq!(*dv.index(2), 50);
}

#[test]
fn get_absent_outside_lens() {
    let dv = DoubleSidedVec::from_vec(2, vec![10, 20, 30, 40, 50]);
    assert_eq!(dv.get(-3), None);
    assert_eq!(dv.get(3), None);
    assert_eq!(dv.get(isize::MIN), None);
    assert_eq!(dv.get(isize::MAX), None);
}

#[test]
fn range_width_matches_lens() {
    let dv = DoubleSidedVec::from_vec(2, vec![1, 2, 3, 4, 5, 6]);
    let r = dv.range();
    let (lo, hi) = dv.lens();
    assert_eq!(r.start, lo);
    assert_eq!(r.end, hi);
    assert_eq!(r.end - r.start, hi - lo);

    // A center beyond the length is accepted; the bounds still agree.
    let mut odd = DoubleSidedVec::from_vec(0, vec![1, 2]);
    odd.set_center(10);
    let r = odd.range();
    let (lo, hi) = odd.lens();
    assert_eq!((r.start, r.end), (lo, hi));
    assert_eq!((lo, hi), (-10, -8));
    assert_eq!(odd.get(0), None);
}

#[test]
fn grow_symmetric_preserves_values() {
    let mut dv = DoubleSidedVec::from_vec(1, vec![7, 8, 9]);
    let before: Vec<(isize, i32)> = {
        let (lo, hi) = dv.lens();
        (lo..hi).map(|i| (i, *dv.index(i))).collect()
    };
    let k = 3;
    for _ in 0..k {
        dv.push_back(0);
    }
    for _ in 0..k {
        dv.push_front(0);
    }
    assert_eq!(dv.lens(), (-1 - k, 2 + k));
    for (i, v) in before {
        assert_eq!(dv.get(i), Some(&v));
    }
    for d in 1..=k {
        assert_eq!(dv.get(-1 - d), Some(&0));
        assert_eq!(dv.get(1 + d), Some(&0));
    }
}

#[test]
fn from_elem_center_takes_center_verbatim() {
    let dv = DoubleSidedVec::from_elem_center(4, 3, 9);
    assert_eq!(dv.lens(), (-9, -6));
    assert_eq!(dv.get(0), None);
    assert_eq!(dv.get(-9), Some(&4));
    assert_eq!(dv.get(-7), Some(&4));
    assert_eq!(dv.get(-6), None);
}

#[test]
fn clear_resets_everything() {
    let mut dv = DoubleSidedVec::from_elem(1, 5);
    dv.clear();
    assert_eq!(dv.len(), 0);
    assert_eq!(dv.lens(), (0, 0));
    assert_eq!(dv, DoubleSidedVec::<i32>::new());
    assert_eq!(dv, DoubleSidedVec::<i32>::default());
}

#[test]
fn with_capacity_starts_empty() {
    let dv: DoubleSidedVec<u8> = DoubleSidedVec::with_capacity(16);
    assert_eq!(dv.len(), 0);
    assert_eq!(dv.lens(), (0, 0));
    assert_eq!(dv.get(0), None);
}

#[test]
fn set_center_rebases_without_moving_data() {
    let mut dv = DoubleSidedVec::from_vec(0, vec![10, 20, 30]);
    assert_eq!(dv.get(0), Some(&10));
    dv.set_center(2);
    assert_eq!(dv.lens(), (-2, 1));
    assert_eq!(dv.get(-2), Some(&10));
    assert_eq!(dv.get(0), Some(&30));
    assert_eq!(dv.iter().as_slice(), &[10, 20, 30]);
}

#[test]
fn iter_walks_in_logical_order() {
    let mut dv = DoubleSidedVec::new();
    dv.push_front(1);
    dv.push_back(0);
    dv.push_front(2);
    assert_eq!(dv.lens(), (-1, 2));
    let collected: Vec<i32> = dv.iter().iter().copied().collect();
    assert_eq!(collected, vec![0, 1, 2]);
}

#[test]
fn iter_mut_allows_element_updates() {
    let mut dv = DoubleSidedVec::from_vec(1, vec![1, 2, 3]);
    for v in dv.iter_mut().iter_mut() {
        *v *= 10;
    }
    assert_eq!(dv.get(-1), Some(&10));
    assert_eq!(dv.get(0), Some(&20));
    assert_eq!(dv.get(1), Some(&30));
}

#[test]
fn push_back_is_prepend_with_center_shift() {
    let mut dv = DoubleSidedVec::from_vec(0, vec![5]);
    dv.push_back(4);
    dv.push_back(3);
    assert_eq!(dv.lens(), (-2, 1));
    assert_eq!(*dv.index(-2), 3);
    assert_eq!(*dv.index(-1), 4);
    assert_eq!(*dv.index(0), 5);
}
