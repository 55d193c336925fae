//! A dense two-dimensional grid with signed coordinates, built as a double
//! sided vec of double sided vecs: the outer axis is x, the inner axis y.

use vstd::prelude::*;
use crate::double_sided_vec::DoubleSidedVec;
use crate::double_sided_vec::concat_all;
use crate::double_sided_vec::is_default;
use crate::double_sided_vec::lemma_concat_all_step;
use crate::double_sided_vec::vec_elem_mut;
use crate::double_sided_vec::grow_row_negative;
use crate::double_sided_vec::grow_row_positive;

verus! {

/// Collects borrows of every element of a two-level double sided vec, in
/// outer-then-inner storage order.
pub(crate) fn plane_cells<C>(plane: &DoubleSidedVec<DoubleSidedVec<C>>) -> (r: Vec<&C>)
    ensures
        r@.map_values(|c: &C| *c) == concat_all(
            plane.contents().map_values(|row: DoubleSidedVec<C>| row.contents())),
{
    let ghost seqs: Seq<Seq<C>> =
        plane.contents().map_values(|row: DoubleSidedVec<C>| row.contents());
    let rows_ref: &Vec<DoubleSidedVec<C>> = plane.iter();
    let mut result: Vec<&C> = Vec::new();
    let n: usize = rows_ref.len();
    proof {
        assert(seqs.take(0) =~= Seq::<Seq<C>>::empty());
        assert(result@.map_values(|c: &C| *c) =~= concat_all(seqs.take(0)));
    }
    let mut x: usize = 0;
    while x < n
        invariant
            x <= n,
            n == rows_ref@.len(),
            rows_ref@ == plane.contents(),
            seqs == plane.contents().map_values(|row: DoubleSidedVec<C>| row.contents()),
            seqs.len() == n,
            result@.map_values(|c: &C| *c) == concat_all(seqs.take(x as int)),
        decreases n - x,
    {
        let row_ref: &DoubleSidedVec<C> = &rows_ref[x];
        let elems: &Vec<C> = row_ref.iter();
        let m: usize = elems.len();
        proof {
            assert(elems@ == seqs[x as int]);
            assert(seqs[x as int].take(0) =~= Seq::<C>::empty());
            assert(result@.map_values(|c: &C| *c)
                =~= concat_all(seqs.take(x as int)) + seqs[x as int].take(0));
        }
        let mut j: usize = 0;
        while j < m
            invariant
                j <= m,
                x < n,
                n == rows_ref@.len(),
                rows_ref@ == plane.contents(),
                seqs == plane.contents().map_values(|row: DoubleSidedVec<C>| row.contents()),
                seqs.len() == n,
                m == elems@.len(),
                elems@ == seqs[x as int],
                result@.map_values(|c: &C| *c)
                    == concat_all(seqs.take(x as int)) + seqs[x as int].take(j as int),
            decreases m - j,
        {
            let ghost prev: Seq<&C> = result@;
            result.push(&elems[j]);
            proof {
                let vals = result@.map_values(|c: &C| *c);
                let goal = concat_all(seqs.take(x as int)) + seqs[x as int].take(j + 1);
                assert(result@ == prev.push(result@[prev.len() as int]));
                assert(prev.map_values(|c: &C| *c).len() == prev.len());
                assert(prev.len() == concat_all(seqs.take(x as int)).len() + j);
                assert(seqs[x as int].take(j + 1).len() == j + 1);
                assert(vals.len() == prev.len() + 1);
                assert(vals.len() == goal.len());
                assert forall|i: int| 0 <= i < vals.len() implies vals[i] == goal[i] by {
                    if i < prev.len() {
                        assert(vals[i] == prev.map_values(|c: &C| *c)[i]);
                    } else {
                        assert(vals[i] == elems@[j as int]);
                    }
                }
                assert(vals =~= goal);
            }
            j = j + 1;
        }
        proof {
            lemma_concat_all_step::<C>(seqs, x as int);
            assert(seqs[x as int].take(m as int) =~= seqs[x as int]);
            assert(result@.map_values(|c: &C| *c) =~= concat_all(seqs.take(x + 1)));
        }
        x = x + 1;
    }
    proof {
        assert(seqs.take(n as int) =~= seqs);
    }
    result
}

/// A rectangular grid of cells addressed by a pair of signed coordinates.
/// Every row always has the same length and the same center as its
/// siblings; the recorded sizes and centers mirror the ones stored in the
/// underlying double sided vecs.
#[derive(Debug, Clone)]
pub struct Grid2<C> {
    size_x: usize,
    size_y: usize,
    center_x: usize,
    center_y: usize,
    cells: DoubleSidedVec<DoubleSidedVec<C>>,
}

impl<C> Grid2<C> {
    /// The recorded extent of the x axis.
    pub closed spec fn spec_size_x(&self) -> int {
        self.size_x as int
    }

    /// The recorded extent of the y axis.
    pub closed spec fn spec_size_y(&self) -> int {
        self.size_y as int
    }

    /// The recorded center of the x axis.
    pub closed spec fn spec_center_x(&self) -> int {
        self.center_x as int
    }

    /// The recorded center of the y axis.
    pub closed spec fn spec_center_y(&self) -> int {
        self.center_y as int
    }

    /// The underlying double sided vec of rows.
    pub closed spec fn rows(&self) -> DoubleSidedVec<DoubleSidedVec<C>> {
        self.cells
    }

    /// The row at logical x coordinate `x`.
    pub open spec fn row(&self, x: int) -> DoubleSidedVec<C>
        recommends
            self.rows().in_range(x),
    {
        self.rows().at(x)
    }

    /// The cell at logical coordinates `(x, y)`.
    pub open spec fn cell(&self, x: int, y: int) -> C
        recommends
            self.cell_in_range(x, y),
    {
        self.row(x).at(y)
    }

    /// Whether `(x, y)` is addressable at both nesting levels.
    pub open spec fn cell_in_range(&self, x: int, y: int) -> bool {
        self.rows().in_range(x) && self.row(x).in_range(y)
    }

    /// A row that holds `len` copies of `value` around center `center`.
    pub open spec fn row_filled(r: DoubleSidedVec<C>, len: int, center: int, value: C) -> bool {
        &&& r.center() == center
        &&& r.contents().len() == len
        &&& forall|j: int| 0 <= j < len ==> r.contents()[j] == value
    }

    /// A row of `len` freshly made default values around center `center`.
    pub open spec fn row_default_filled(r: DoubleSidedVec<C>, len: int, center: int) -> bool
        where C: Default
    {
        &&& r.center() == center
        &&& r.contents().len() == len
        &&& forall|j: int| 0 <= j < len ==> is_default(#[trigger] r.contents()[j])
    }

    /// Well-formedness: the recorded sizes and centers agree with the
    /// underlying storage, and every row has the recorded length and
    /// center, so the grid is rectangular.
    pub open spec fn wf(&self) -> bool {
        &&& self.rows().center() == self.spec_center_x()
        &&& self.rows().contents().len() == self.spec_size_x()
        &&& forall|x: int| 0 <= x < self.rows().contents().len()
            ==> (#[trigger] self.rows().contents()[x]).center() == self.spec_center_y()
                && self.rows().contents()[x].contents().len() == self.spec_size_y()
    }

    /// The recorded sizes and centers, the outer structure, and every
    /// row's length and center agree between `pre` and `post`.
    pub open spec fn frame_preserved(pre: Self, post: Self) -> bool {
        &&& post.spec_size_x() == pre.spec_size_x()
        &&& post.spec_size_y() == pre.spec_size_y()
        &&& post.spec_center_x() == pre.spec_center_x()
        &&& post.spec_center_y() == pre.spec_center_y()
        &&& post.rows().center() == pre.rows().center()
        &&& post.rows().contents().len() == pre.rows().contents().len()
        &&& forall|x: int| 0 <= x < pre.rows().contents().len()
            ==> (#[trigger] post.rows().contents()[x]).center()
                    == pre.rows().contents()[x].center()
                && post.rows().contents()[x].contents().len()
                    == pre.rows().contents()[x].contents().len()
    }

    /// The two grids agree on every observable part: the recorded sizes
    /// and centers, the outer center and row count, and every row's
    /// center and elements.
    pub open spec fn same_state(a: Self, b: Self) -> bool {
        &&& Self::frame_preserved(a, b)
        &&& forall|x: int| 0 <= x < a.rows().contents().len()
            ==> (#[trigger] b.rows().contents()[x]).contents()
                == a.rows().contents()[x].contents()
    }

    /// A grid of `size_x` by `size_y` cells, every one holding `default`,
    /// with both centers at half the corresponding size.
    pub fn new(size_x: usize, size_y: usize, default: C) -> (r: Self) where C: Copy
        ensures
            r.wf(),
            r.spec_size_x() == size_x,
            r.spec_size_y() == size_y,
            r.spec_center_x() == size_x as int / 2,
            r.spec_center_y() == size_y as int / 2,
            forall|x: int| 0 <= x < size_x ==> Self::row_filled(
                #[trigger] r.rows().contents()[x], size_y as int, size_y as int / 2, default),
    {
        let mut rows_vec: Vec<DoubleSidedVec<C>> = Vec::with_capacity(size_x);
        let mut n: usize = 0;
        while n < size_x
            invariant
                n <= size_x,
                rows_vec@.len() == n,
                forall|x: int| 0 <= x < n ==> Self::row_filled(
                    #[trigger] rows_vec@[x], size_y as int, size_y as int / 2, default),
            decreases size_x - n,
        {
            rows_vec.push(DoubleSidedVec::from_elem(default, size_y));
            n = n + 1;
        }
        Self {
            size_x,
            size_y,
            center_x: size_x / 2,
            center_y: size_y / 2,
            cells: DoubleSidedVec::from_vec(size_x / 2, rows_vec),
        }
    }

    /// Re-bases the x axis: overwrites the recorded x center and the outer
    /// center marker; no data moves.
    pub fn set_center_x(&mut self, center: usize)
        ensures
            final(self).spec_center_x() == center,
            final(self).spec_center_y() == old(self).spec_center_y(),
            final(self).spec_size_x() == old(self).spec_size_x(),
            final(self).spec_size_y() == old(self).spec_size_y(),
            final(self).rows().center() == center,
            final(self).rows().contents() == old(self).rows().contents(),
            old(self).wf() ==> final(self).wf(),
    {
        self.center_x = center;
        self.cells.set_center(center);
    }

    /// Re-bases the y axis: overwrites the recorded y center and the
    /// center marker of every row, keeping the grid rectangular; no data
    /// moves.
    pub fn set_center_y(&mut self, center: usize)
        ensures
            final(self).spec_center_y() == center,
            final(self).spec_center_x() == old(self).spec_center_x(),
            final(self).spec_size_x() == old(self).spec_size_x(),
            final(self).spec_size_y() == old(self).spec_size_y(),
            final(self).rows().center() == old(self).rows().center(),
            final(self).rows().contents().len() == old(self).rows().contents().len(),
            forall|x: int| 0 <= x < old(self).rows().contents().len()
                ==> (#[trigger] final(self).rows().contents()[x]).center() == center
                    && final(self).rows().contents()[x].contents()
                        == old(self).rows().contents()[x].contents(),
            old(self).wf() ==> final(self).wf(),
    {
        self.center_y = center;
        let ghost orig: Seq<DoubleSidedVec<C>> = self.cells.contents();
        let rows_vec: &mut Vec<DoubleSidedVec<C>> = self.cells.iter_mut();
        let n: usize = rows_vec.len();
        let mut x: usize = 0;
        while x < n
            invariant
                x <= n,
                rows_vec@.len() == n,
                n == orig.len(),
                forall|i: int| 0 <= i < x
                    ==> (#[trigger] rows_vec@[i]).center() == center
                        && rows_vec@[i].contents() == orig[i].contents(),
                forall|i: int| x <= i < n ==> rows_vec@[i] == orig[i],
            decreases n - x,
        {
            let row: &mut DoubleSidedVec<C> = vec_elem_mut(rows_vec, x);
            row.set_center(center);
            x = x + 1;
        }
    }

    /// A borrow of the underlying double sided vec of rows.
    pub fn grid(&self) -> (r: &DoubleSidedVec<DoubleSidedVec<C>>)
        ensures
            *r == self.rows(),
    {
        &self.cells
    }

    /// The same borrow as `grid`; the underlying storage is handed out
    /// read-only so its shape cannot be changed behind the recorded sizes.
    pub fn grid_mut(&mut self) -> (r: &DoubleSidedVec<DoubleSidedVec<C>>)
        ensures
            *r == old(self).rows(),
            *final(self) == *old(self),
    {
        &self.cells
    }

    /// The recorded extent of the x axis.
    pub fn size_x(&self) -> (r: usize)
        ensures
            r == self.spec_size_x(),
    {
        self.size_x
    }

    /// The recorded extent of the y axis.
    pub fn size_y(&self) -> (r: usize)
        ensures
            r == self.spec_size_y(),
    {
        self.size_y
    }

    /// The recorded center of the x axis.
    pub fn center_x(&self) -> (r: usize)
        ensures
            r == self.spec_center_x(),
    {
        self.center_x
    }

    /// The recorded center of the y axis.
    pub fn center_y(&self) -> (r: usize)
        ensures
            r == self.spec_center_y(),
    {
        self.center_y
    }

    /// The addressable x coordinate bounds, as `(min, max_exclusive)`.
    pub fn lens_x(&self) -> (r: (isize, isize))
        requires
            self.rows().fits_isize(),
        ensures
            r.0 == self.rows().lo(),
            r.1 == self.rows().hi(),
    {
        self.cells.lens()
    }

    /// The addressable y coordinate bounds, read from the row at x
    /// coordinate 0; a grid with no row there yields `(0, 0)`.
    pub fn lens_y(&self) -> (r: (isize, isize))
        requires
            self.rows().in_range(0) ==> self.row(0).fits_isize(),
        ensures
            self.rows().in_range(0) ==> r.0 == self.row(0).lo() && r.1 == self.row(0).hi(),
            !self.rows().in_range(0) ==> r == (0isize, 0isize),
    {
        match self.cells.get(0) {
            Some(row) => row.lens(),
            None => (0, 0),
        }
    }

    /// The addressable x coordinate bounds, as a half-open range.
    pub fn range_x(&self) -> (r: core::ops::Range<isize>)
        requires
            self.rows().fits_isize(),
        ensures
            r.start == self.rows().lo(),
            r.end == self.rows().hi(),
    {
        self.cells.range()
    }

    /// The addressable y coordinate bounds, as a half-open range, read
    /// from the row at x coordinate 0; empty when that row is absent.
    pub fn range_y(&self) -> (r: core::ops::Range<isize>)
        requires
            self.rows().in_range(0) ==> self.row(0).fits_isize(),
        ensures
            self.rows().in_range(0) ==> r.start == self.row(0).lo() && r.end == self.row(0).hi(),
            !self.rows().in_range(0) ==> r.start == 0 && r.end == 0,
    {
        match self.cells.get(0) {
            Some(row) => row.range(),
            None => 0..0,
        }
    }

    /// The cell at `location`, or `None` when either coordinate is out of
    /// range at its nesting level.
    pub fn get(&self, location: (isize, isize)) -> (r: Option<&C>)
        ensures
            self.cell_in_range(location.0 as int, location.1 as int)
                ==> (r matches Some(v) && *v == self.cell(location.0 as int, location.1 as int)),
            !self.cell_in_range(location.0 as int, location.1 as int) ==> r is None,
    {
        match self.cells.get(location.0) {
            Some(row) => row.get(location.1),
            None => None,
        }
    }

    /// Unchecked access to the cell at `location`: the caller must have
    /// established that both coordinates are in range.
    pub fn index(&self, location: (isize, isize)) -> (r: &C)
        requires
            self.cell_in_range(location.0 as int, location.1 as int),
        ensures
            *r == self.cell(location.0 as int, location.1 as int),
    {
        self.cells.index(location.0).index(location.1)
    }

    /// Unchecked mutable access to the cell at `location`, under the same
    /// obligation as `index`. Everything but the addressed cell stays as
    /// it was.
    pub fn index_mut(&mut self, location: (isize, isize)) -> (r: &mut C)
        requires
            old(self).cell_in_range(location.0 as int, location.1 as int),
        ensures
            *r == old(self).cell(location.0 as int, location.1 as int),
            final(self).spec_size_x() == old(self).spec_size_x(),
            final(self).spec_size_y() == old(self).spec_size_y(),
            final(self).spec_center_x() == old(self).spec_center_x(),
            final(self).spec_center_y() == old(self).spec_center_y(),
            final(self).rows().center() == old(self).rows().center(),
            final(self).rows().contents().len() == old(self).rows().contents().len(),
            forall|x: int| 0 <= x < old(self).rows().contents().len()
                && x != old(self).rows().center() + location.0
                ==> #[trigger] final(self).rows().contents()[x]
                    == old(self).rows().contents()[x],
            final(self).row(location.0 as int).center()
                == old(self).row(location.0 as int).center(),
            final(self).row(location.0 as int).contents()
                == old(self).row(location.0 as int).contents().update(
                    old(self).row(location.0 as int).center() + location.1, *final(r)),
    {
        self.cells.index_mut(location.0).index_mut(location.1)
    }
    /// Grows the x axis by `amount` new rows on the negative side, each a
    /// fresh default-filled row shaped like the existing ones; the
    /// recorded x size and x center both move up by `amount`.
    pub fn expand_neg_x(&mut self, amount: usize) where C: Copy + Default
        requires
            old(self).wf(),
            old(self).spec_size_x() + amount <= usize::MAX,
            old(self).spec_center_x() + amount <= usize::MAX,
        ensures
            final(self).wf(),
            final(self).spec_size_x() == old(self).spec_size_x() + amount,
            final(self).spec_center_x() == old(self).spec_center_x() + amount,
            final(self).spec_size_y() == old(self).spec_size_y(),
            final(self).spec_center_y() == old(self).spec_center_y(),
            final(self).rows().contents().len() == old(self).rows().contents().len() + amount,
            forall|x: int| 0 <= x < amount ==> Self::row_default_filled(
                #[trigger] final(self).rows().contents()[x],
                old(self).spec_size_y(), old(self).spec_center_y()),
            forall|x: int| amount <= x < final(self).rows().contents().len()
                ==> #[trigger] final(self).rows().contents()[x]
                    == old(self).rows().contents()[x - amount],
    {
        let mut k: usize = 0;
        while k < amount
            invariant
                k <= amount,
                old(self).wf(),
                old(self).spec_size_x() + amount <= usize::MAX,
                old(self).spec_center_x() + amount <= usize::MAX,
                self.size_x == old(self).size_x,
                self.size_y == old(self).size_y,
                self.center_x == old(self).center_x,
                self.center_y == old(self).center_y,
                self.cells.center() == old(self).spec_center_x() + k,
                self.cells.contents().len() == old(self).spec_size_x() + k,
                forall|x: int| 0 <= x < k ==> Self::row_default_filled(
                    #[trigger] self.cells.contents()[x],
                    old(self).spec_size_y(), old(self).spec_center_y()),
                forall|x: int| k <= x < self.cells.contents().len()
                    ==> #[trigger] self.cells.contents()[x]
                        == old(self).rows().contents()[x - k],
            decreases amount - k,
        {
            let row: DoubleSidedVec<C> =
                DoubleSidedVec::from_elem_center(C::default(), self.size_y, self.center_y);
            self.cells.push_back(row);
            k = k + 1;
        }
        self.size_x = self.size_x + amount;
        self.center_x = self.center_x + amount;
    }

    /// Grows the x axis by `amount` new rows on the positive side, each a
    /// fresh default-filled row shaped like the existing ones; the
    /// recorded x size grows by `amount` and the x center stays.
    pub fn expand_pos_x(&mut self, amount: usize) where C: Copy + Default
        requires
            old(self).wf(),
            old(self).spec_size_x() + amount <= usize::MAX,
        ensures
            final(self).wf(),
            final(self).spec_size_x() == old(self).spec_size_x() + amount,
            final(self).spec_center_x() == old(self).spec_center_x(),
            final(self).spec_size_y() == old(self).spec_size_y(),
            final(self).spec_center_y() == old(self).spec_center_y(),
            final(self).rows().center() == old(self).rows().center(),
            final(self).rows().contents().len() == old(self).rows().contents().len() + amount,
            forall|x: int| 0 <= x < old(self).rows().contents().len()
                ==> #[trigger] final(self).rows().contents()[x]
                    == old(self).rows().contents()[x],
            forall|x: int| old(self).rows().contents().len() <= x
                < final(self).rows().contents().len()
                ==> Self::row_default_filled(#[trigger] final(self).rows().contents()[x],
                    old(self).spec_size_y(), old(self).spec_center_y()),
    {
        let mut k: usize = 0;
        while k < amount
            invariant
                k <= amount,
                old(self).wf(),
                old(self).spec_size_x() + amount <= usize::MAX,
                self.size_x == old(self).size_x,
                self.size_y == old(self).size_y,
                self.center_x == old(self).center_x,
                self.center_y == old(self).center_y,
                self.cells.center() == old(self).rows().center(),
                self.cells.contents().len() == old(self).spec_size_x() + k,
                forall|x: int| 0 <= x < old(self).rows().contents().len()
                    ==> #[trigger] self.cells.contents()[x] == old(self).rows().contents()[x],
                forall|x: int| old(self).rows().contents().len() <= x
                    < self.cells.contents().len()
                    ==> Self::row_default_filled(#[trigger] self.cells.contents()[x],
                        old(self).spec_size_y(), old(self).spec_center_y()),
            decreases amount - k,
        {
            let row: DoubleSidedVec<C> =
                DoubleSidedVec::from_elem_center(C::default(), self.size_y, self.center_y);
            self.cells.push_front(row);
            k = k + 1;
        }
        self.size_x = self.size_x + amount;
    }

    /// Grows every row by `amount` default-filled slots on the negative
    /// side; the recorded y size and y center both move up by `amount`.
    pub fn expand_neg_y(&mut self, amount: usize) where C: Copy + Default
        requires
            old(self).wf(),
            old(self).spec_size_y() + amount <= usize::MAX,
            old(self).spec_center_y() + amount <= usize::MAX,
        ensures
            final(self).wf(),
            final(self).spec_size_y() == old(self).spec_size_y() + amount,
            final(self).spec_center_y() == old(self).spec_center_y() + amount,
            final(self).spec_size_x() == old(self).spec_size_x(),
            final(self).spec_center_x() == old(self).spec_center_x(),
            final(self).rows().center() == old(self).rows().center(),
            final(self).rows().contents().len() == old(self).rows().contents().len(),
            forall|x: int| 0 <= x < old(self).rows().contents().len() ==> {
                &&& (#[trigger] final(self).rows().contents()[x]).center()
                    == old(self).spec_center_y() + amount
                &&& final(self).rows().contents()[x].contents().len()
                    == old(self).spec_size_y() + amount
                &&& forall|j: int| 0 <= j < amount ==> is_default(
                    #[trigger] final(self).rows().contents()[x].contents()[j])
                &&& forall|j: int| amount <= j < old(self).spec_size_y() + amount
                    ==> #[trigger] final(self).rows().contents()[x].contents()[j]
                        == old(self).rows().contents()[x].contents()[j - amount]
            },
    {
        let ghost orig: Seq<DoubleSidedVec<C>> = self.cells.contents();
        let rows_vec: &mut Vec<DoubleSidedVec<C>> = self.cells.iter_mut();
        let n: usize = rows_vec.len();
        let mut x: usize = 0;
        while x < n
            invariant
                x <= n,
                old(self).wf(),
                old(self).spec_center_y() + amount <= usize::MAX,
                rows_vec@.len() == n,
                n == orig.len(),
                orig == old(self).rows().contents(),
                forall|i: int| 0 <= i < x ==> {
                    &&& (#[trigger] rows_vec@[i]).center()
                        == old(self).spec_center_y() + amount
                    &&& rows_vec@[i].contents().len() == old(self).spec_size_y() + amount
                    &&& forall|j: int| 0 <= j < amount ==> is_default(
                        #[trigger] rows_vec@[i].contents()[j])
                    &&& forall|j: int| amount <= j < old(self).spec_size_y() + amount
                        ==> #[trigger] rows_vec@[i].contents()[j]
                            == orig[i].contents()[j - amount]
                },
                forall|i: int| x <= i < n ==> rows_vec@[i] == orig[i],
            decreases n - x,
        {
            proof {
                assert(old(self).rows().contents()[x as int].center()
                    == old(self).spec_center_y());
                assert(old(self).rows().contents()[x as int].contents().len()
                    == old(self).spec_size_y());
            }
            let row: &mut DoubleSidedVec<C> = vec_elem_mut(rows_vec, x);
            grow_row_negative(row, amount);
            x = x + 1;
        }
        self.size_y = self.size_y + amount;
        self.center_y = self.center_y + amount;
    }

    /// Grows every row by `amount` default-filled slots on the positive
    /// side; the recorded y size grows by `amount` and the y center stays.
    pub fn expand_pos_y(&mut self, amount: usize) where C: Copy + Default
        requires
            old(self).wf(),
            old(self).spec_size_y() + amount <= usize::MAX,
        ensures
            final(self).wf(),
            final(self).spec_size_y() == old(self).spec_size_y() + amount,
            final(self).spec_center_y() == old(self).spec_center_y(),
            final(self).spec_size_x() == old(self).spec_size_x(),
            final(self).spec_center_x() == old(self).spec_center_x(),
            final(self).rows().center() == old(self).rows().center(),
            final(self).rows().contents().len() == old(self).rows().contents().len(),
            forall|x: int| 0 <= x < old(self).rows().contents().len() ==> {
                &&& (#[trigger] final(self).rows().contents()[x]).center()
                    == old(self).spec_center_y()
                &&& final(self).rows().contents()[x].contents().len()
                    == old(self).spec_size_y() + amount
                &&& forall|j: int| 0 <= j < old(self).spec_size_y()
                    ==> #[trigger] final(self).rows().contents()[x].contents()[j]
                        == old(self).rows().contents()[x].contents()[j]
                &&& forall|j: int| old(self).spec_size_y() <= j
                    < old(self).spec_size_y() + amount
                    ==> is_default(#[trigger] final(self).rows().contents()[x].contents()[j])
            },
    {
        let ghost orig: Seq<DoubleSidedVec<C>> = self.cells.contents();
        let rows_vec: &mut Vec<DoubleSidedVec<C>> = self.cells.iter_mut();
        let n: usize = rows_vec.len();
        let mut x: usize = 0;
        while x < n
            invariant
                x <= n,
                old(self).wf(),
                rows_vec@.len() == n,
                n == orig.len(),
                orig == old(self).rows().contents(),
                forall|i: int| 0 <= i < x ==> {
                    &&& (#[trigger] rows_vec@[i]).center() == old(self).spec_center_y()
                    &&& rows_vec@[i].contents().len() == old(self).spec_size_y() + amount
                    &&& forall|j: int| 0 <= j < old(self).spec_size_y()
                        ==> #[trigger] rows_vec@[i].contents()[j] == orig[i].contents()[j]
                    &&& forall|j: int| old(self).spec_size_y() <= j
                        < old(self).spec_size_y() + amount
                        ==> is_default(#[trigger] rows_vec@[i].contents()[j])
                },
                forall|i: int| x <= i < n ==> rows_vec@[i] == orig[i],
            decreases n - x,
        {
            proof {
                assert(old(self).rows().contents()[x as int].center()
                    == old(self).spec_center_y());
                assert(old(self).rows().contents()[x as int].contents().len()
                    == old(self).spec_size_y());
            }
            let row: &mut DoubleSidedVec<C> = vec_elem_mut(rows_vec, x);
            grow_row_positive(row, amount);
            x = x + 1;
        }
        self.size_y = self.size_y + amount;
    }
    /// All cells in outer-then-inner traversal order.
    pub open spec fn flat(&self) -> Seq<C> {
        concat_all(self.rows().contents().map_values(|row: DoubleSidedVec<C>| row.contents()))
    }

    /// Borrows of all cells, flattened in outer-then-inner traversal
    /// order.
    pub fn cells(&self) -> (r: Vec<&C>)
        ensures
            r@.map_values(|c: &C| *c) == self.flat(),
    {
        plane_cells(&self.cells)
    }

    /// Mutable checked access: the cell at `location`, or `None` when
    /// either coordinate is out of range at its nesting level.
    pub fn get_mut(&mut self, location: (isize, isize)) -> (r: Option<&mut C>)
        ensures
            final(self).spec_size_x() == old(self).spec_size_x(),
            final(self).spec_size_y() == old(self).spec_size_y(),
            final(self).spec_center_x() == old(self).spec_center_x(),
            final(self).spec_center_y() == old(self).spec_center_y(),
            final(self).rows().center() == old(self).rows().center(),
            final(self).rows().contents().len() == old(self).rows().contents().len(),
            old(self).cell_in_range(location.0 as int, location.1 as int)
                ==> (r matches Some(v)
                    && *v == old(self).cell(location.0 as int, location.1 as int)
                    && (forall|x: int| 0 <= x < old(self).rows().contents().len()
                        && x != old(self).rows().center() + location.0
                        ==> #[trigger] final(self).rows().contents()[x]
                            == old(self).rows().contents()[x])
                    && final(self).row(location.0 as int).center()
                        == old(self).row(location.0 as int).center()
                    && final(self).row(location.0 as int).contents()
                        == old(self).row(location.0 as int).contents().update(
                            old(self).row(location.0 as int).center() + location.1,
                            *final(v))),
            !old(self).cell_in_range(location.0 as int, location.1 as int)
                ==> (r is None
                    && forall|x: int| 0 <= x < old(self).rows().contents().len()
                        ==> #[trigger] final(self).rows().contents()[x]
                            == old(self).rows().contents()[x]),
    {
        match self.cells.get_mut(location.0) {
            Some(row) => row.get_mut(location.1),
            None => None,
        }
    }

    /// The cells of `post` are those of `pre` with the values at `a` and
    /// `b` exchanged, inside an unchanged frame.
    pub open spec fn swapped(pre: Self, post: Self, ax: int, ay: int, bx: int, by: int) -> bool {
        &&& Self::frame_preserved(pre, post)
        &&& post.cell(bx, by) == pre.cell(ax, ay)
        &&& post.cell(ax, ay) == pre.cell(bx, by)
        &&& forall|x: int, y: int| pre.cell_in_range(x, y)
            && !(x == ax && y == ay) && !(x == bx && y == by)
            ==> #[trigger] post.cell(x, y) == pre.cell(x, y)
    }

    /// The cells of `post` are those of `pre` with the value at `from`
    /// copied over `to` and a fresh default value left at `from`, inside
    /// an unchanged frame.
    pub open spec fn moved(pre: Self, post: Self, fx: int, fy: int, tx: int, ty: int) -> bool
        where C: Default
    {
        &&& Self::frame_preserved(pre, post)
        &&& is_default(post.cell(fx, fy))
        &&& !(tx == fx && ty == fy) ==> post.cell(tx, ty) == pre.cell(fx, fy)
        &&& forall|x: int, y: int| pre.cell_in_range(x, y)
            && !(x == fx && y == fy) && !(x == tx && y == ty)
            ==> #[trigger] post.cell(x, y) == pre.cell(x, y)
    }

    /// Exchanges the two cells at `locations` in place. Both coordinate
    /// pairs must be in range: this goes through the unchecked access
    /// path.
    pub fn swap_cells(&mut self, locations: ((isize, isize), (isize, isize))) where C: Copy
        requires
            old(self).cell_in_range(locations.0.0 as int, locations.0.1 as int),
            old(self).cell_in_range(locations.1.0 as int, locations.1.1 as int),
        ensures
            Self::swapped(*old(self), *final(self),
                locations.0.0 as int, locations.0.1 as int,
                locations.1.0 as int, locations.1.1 as int),
    {
        let temp: C = *self.index(locations.1);
        let source: C = *self.index(locations.0);
        *self.index_mut(locations.1) = source;
        *self.index_mut(locations.0) = temp;
    }

    /// Copies the cell at `locations.0` over the cell at `locations.1`,
    /// then leaves a fresh default value at `locations.0`. Both coordinate
    /// pairs must be in range: this goes through the unchecked access
    /// path.
    pub fn move_cell(&mut self, locations: ((isize, isize), (isize, isize)))
        where C: Copy + Default
        requires
            old(self).cell_in_range(locations.0.0 as int, locations.0.1 as int),
            old(self).cell_in_range(locations.1.0 as int, locations.1.1 as int),
        ensures
            Self::moved(*old(self), *final(self),
                locations.0.0 as int, locations.0.1 as int,
                locations.1.0 as int, locations.1.1 as int),
    {
        let source: C = *self.index(locations.0);
        *self.index_mut(locations.1) = source;
        *self.index_mut(locations.0) = C::default();
    }
    /// Rectangularity: in a well-formed grid, any two rows have the same
    /// length and the same center. The constructors establish
    /// well-formedness and every expansion preserves it, so this holds
    /// after any of them.
    pub proof fn lemma_wf_rectangular(g: Self)
        requires
            g.wf(),
        ensures
            forall|x1: int, x2: int|
                0 <= x1 < g.rows().contents().len() && 0 <= x2 < g.rows().contents().len()
                ==> (#[trigger] g.rows().contents()[x1]).center()
                        == (#[trigger] g.rows().contents()[x2]).center()
                    && g.rows().contents()[x1].contents().len()
                        == g.rows().contents()[x2].contents().len(),
    {
    }

    /// Swapping the same two cells twice in succession restores every
    /// observable part of the grid: sizes, centers, and every cell.
    pub proof fn lemma_swap_twice_restores(
        s0: Self,
        s1: Self,
        s2: Self,
        ax: int,
        ay: int,
        bx: int,
        by: int,
    )
        requires
            s0.cell_in_range(ax, ay),
            s0.cell_in_range(bx, by),
            Self::swapped(s0, s1, ax, ay, bx, by),
            Self::swapped(s1, s2, ax, ay, bx, by),
        ensures
            Self::same_state(s0, s2),
    {
        let cx = s0.rows().center();
        assert forall|x: int| 0 <= x < s0.rows().contents().len() implies
            (#[trigger] s2.rows().contents()[x]).contents()
                == s0.rows().contents()[x].contents() by {
            let lx = x - cx;
            let rc = s0.rows().contents()[x].center();
            assert forall|j: int| 0 <= j < s0.rows().contents()[x].contents().len() implies
                s2.rows().contents()[x].contents()[j]
                    == s0.rows().contents()[x].contents()[j] by {
                let ly = j - rc;
                assert(s0.cell_in_range(lx, ly));
                assert(s1.cell_in_range(lx, ly));
                assert(s0.cell(lx, ly) == s0.rows().contents()[x].contents()[j]);
                assert(s2.cell(lx, ly) == s2.rows().contents()[x].contents()[j]);
                if lx == ax && ly == ay {
                    assert(s2.cell(lx, ly) == s0.cell(lx, ly));
                } else if lx == bx && ly == by {
                    assert(s2.cell(lx, ly) == s0.cell(lx, ly));
                } else {
                    assert(s1.cell(lx, ly) == s0.cell(lx, ly));
                    assert(s2.cell(lx, ly) == s1.cell(lx, ly));
                }
            }
            assert(s2.rows().contents()[x].contents()
                =~= s0.rows().contents()[x].contents());
        }
    }

    /// Moving a cell to another place and then moving it back does not
    /// restore the grid: the value comes home, but the other cell is left
    /// holding a default value instead of what it held before. Stated for
    /// two distinct coordinates; whenever the second cell did not already
    /// hold a default value, the round trip observably changes the grid.
    pub proof fn lemma_move_and_back(
        s0: Self,
        s1: Self,
        s2: Self,
        ax: int,
        ay: int,
        bx: int,
        by: int,
    )
        where C: Default
        requires
            s0.cell_in_range(ax, ay),
            s0.cell_in_range(bx, by),
            !(ax == bx && ay == by),
            Self::moved(s0, s1, ax, ay, bx, by),
            Self::moved(s1, s2, bx, by, ax, ay),
        ensures
            s2.cell(ax, ay) == s0.cell(ax, ay),
            is_default(s2.cell(bx, by)),
            !is_default(s0.cell(bx, by)) ==> !Self::same_state(s0, s2),
    {
        assert(s1.cell_in_range(bx, by));
        assert(s2.cell(ax, ay) == s1.cell(bx, by));
        assert(s1.cell(bx, by) == s0.cell(ax, ay));
        if !is_default(s0.cell(bx, by)) && Self::same_state(s0, s2) {
            let cx = s0.rows().center();
            let rc = s0.rows().contents()[cx + bx].center();
            assert(s2.rows().contents()[cx + bx].contents()
                == s0.rows().contents()[cx + bx].contents());
            assert(s2.cell(bx, by) == s2.rows().contents()[cx + bx].contents()[rc + by]);
            assert(s0.cell(bx, by) == s0.rows().contents()[cx + bx].contents()[rc + by]);
            assert(false);
        }
    }
}

impl<C> Default for Grid2<C> {
    /// An empty grid: both sizes and centers 0, no rows.
    fn default() -> (r: Self)
        ensures
            r.wf(),
            r.spec_size_x() == 0,
            r.spec_size_y() == 0,
            r.spec_center_x() == 0,
            r.spec_center_y() == 0,
            r.rows().contents().len() == 0,
    {
        Self {
            size_x: 0,
            size_y: 0,
            center_x: 0,
            center_y: 0,
            cells: DoubleSidedVec::new(),
        }
    }
}

} // verus!
