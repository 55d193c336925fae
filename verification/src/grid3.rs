//! A dense three-dimensional grid with signed coordinates, built as a
//! double sided vec of double sided vecs of double sided vecs: the outer
//! axis is x, then y, then z.

use vstd::prelude::*;
use crate::double_sided_vec::DoubleSidedVec;
use crate::double_sided_vec::concat_all;
use crate::double_sided_vec::is_default;
use crate::double_sided_vec::lemma_concat_all_step;
use crate::double_sided_vec::vec_elem_mut;
use crate::double_sided_vec::grow_rows_negative;
use crate::double_sided_vec::grow_rows_positive;
use crate::grid2::plane_cells;

verus! {

/// A box-shaped grid of cells addressed by a triple of signed
/// coordinates. Every plane has the same number of rows, every row the
/// same length, and the centers at each level agree across siblings; the
/// recorded sizes and centers mirror the ones stored in the underlying
/// double sided vecs.
#[derive(Debug, Clone)]
pub struct Grid3<C> {
    pub size_x: usize,
    pub size_y: usize,
    pub size_z: usize,
    pub center_x: usize,
    pub center_y: usize,
    pub center_z: usize,
    grid: DoubleSidedVec<DoubleSidedVec<DoubleSidedVec<C>>>,
}

impl<C> Grid3<C> {
    /// The underlying double sided vec of planes.
    pub closed spec fn planes(&self) -> DoubleSidedVec<DoubleSidedVec<DoubleSidedVec<C>>> {
        self.grid
    }


    /// The recorded extent of the x axis.
    pub closed spec fn spec_size_x(&self) -> int {
        self.size_x as int
    }

    /// The recorded extent of the y axis.
    pub closed spec fn spec_size_y(&self) -> int {
        self.size_y as int
    }

    /// The recorded extent of the z axis.
    pub closed spec fn spec_size_z(&self) -> int {
        self.size_z as int
    }

    /// The recorded center of the x axis.
    pub closed spec fn spec_center_x(&self) -> int {
        self.center_x as int
    }

    /// The recorded center of the y axis.
    pub closed spec fn spec_center_y(&self) -> int {
        self.center_y as int
    }

    /// The recorded center of the z axis.
    pub closed spec fn spec_center_z(&self) -> int {
        self.center_z as int
    }

    /// The plane at logical x coordinate `x`.
    pub open spec fn plane(&self, x: int) -> DoubleSidedVec<DoubleSidedVec<C>>
        recommends
            self.planes().in_range(x),
    {
        self.planes().at(x)
    }

    /// The row at logical coordinates `(x, y)`.
    pub open spec fn row(&self, x: int, y: int) -> DoubleSidedVec<C> {
        self.plane(x).at(y)
    }

    /// The cell at logical coordinates `(x, y, z)`.
    pub open spec fn cell(&self, x: int, y: int, z: int) -> C
        recommends
            self.cell_in_range(x, y, z),
    {
        self.row(x, y).at(z)
    }

    /// Whether `(x, y, z)` is addressable at all three nesting levels.
    pub open spec fn cell_in_range(&self, x: int, y: int, z: int) -> bool {
        self.planes().in_range(x) && self.plane(x).in_range(y) && self.row(x, y).in_range(z)
    }

    /// A row that holds `len` copies of `value` around center `center`.
    pub open spec fn row_filled(r: DoubleSidedVec<C>, len: int, center: int, value: C) -> bool {
        &&& r.center() == center
        &&& r.contents().len() == len
        &&& forall|k: int| 0 <= k < len ==> r.contents()[k] == value
    }

    /// A row of `len` freshly made default values around center `center`.
    pub open spec fn row_default_filled(r: DoubleSidedVec<C>, len: int, center: int) -> bool
        where C: Default
    {
        &&& r.center() == center
        &&& r.contents().len() == len
        &&& forall|k: int| 0 <= k < len ==> is_default(#[trigger] r.contents()[k])
    }

    /// A plane whose rows all hold copies of `value`, shaped by the given
    /// sizes and centers.
    pub open spec fn plane_filled(
        p: DoubleSidedVec<DoubleSidedVec<C>>,
        size_y: int,
        center_y: int,
        size_z: int,
        center_z: int,
        value: C,
    ) -> bool {
        &&& p.center() == center_y
        &&& p.contents().len() == size_y
        &&& forall|y: int| 0 <= y < size_y ==> Self::row_filled(
            #[trigger] p.contents()[y], size_z, center_z, value)
    }

    /// A plane whose rows are all default-filled, shaped by the given
    /// sizes and centers.
    pub open spec fn plane_default_filled(
        p: DoubleSidedVec<DoubleSidedVec<C>>,
        size_y: int,
        center_y: int,
        size_z: int,
        center_z: int,
    ) -> bool
        where C: Default
    {
        &&& p.center() == center_y
        &&& p.contents().len() == size_y
        &&& forall|y: int| 0 <= y < size_y ==> Self::row_default_filled(
            #[trigger] p.contents()[y], size_z, center_z)
    }

    /// Well-formedness: the recorded sizes and centers agree with the
    /// underlying storage at every level, so the grid is box-shaped.
    pub open spec fn wf(&self) -> bool {
        &&& self.planes().center() == self.spec_center_x()
        &&& self.planes().contents().len() == self.spec_size_x()
        &&& forall|x: int| 0 <= x < self.planes().contents().len()
            ==> (#[trigger] self.planes().contents()[x]).center() == self.spec_center_y()
                && self.planes().contents()[x].contents().len() == self.spec_size_y()
        &&& forall|x: int, y: int| 0 <= x < self.planes().contents().len()
            && 0 <= y < self.planes().contents()[x].contents().len()
            ==> (#[trigger] self.planes().contents()[x].contents()[y]).center()
                    == self.spec_center_z()
                && self.planes().contents()[x].contents()[y].contents().len()
                    == self.spec_size_z()
    }

    /// A grid of `size_x` by `size_y` by `size_z` cells, every one holding
    /// `default`, with each center at half the corresponding size.
    pub fn new(size_x: usize, size_y: usize, size_z: usize, default: C) -> (r: Self)
        where C: Copy
        ensures
            r.wf(),
            r.spec_size_x() == size_x,
            r.spec_size_y() == size_y,
            r.spec_size_z() == size_z,
            r.spec_center_x() == size_x / 2,
            r.spec_center_y() == size_y / 2,
            r.spec_center_z() == size_z / 2,
            forall|x: int| 0 <= x < size_x ==> Self::plane_filled(
                #[trigger] r.planes().contents()[x],
                size_y as int, size_y as int / 2, size_z as int, size_z as int / 2, default),
    {
        Self::new_center(size_x, size_y, size_z, size_x / 2, size_y / 2, size_z / 2, default)
    }

    /// A fully populated grid with every center taken verbatim: no
    /// relation between a center and the matching size is checked.
    pub fn new_center(
        size_x: usize,
        size_y: usize,
        size_z: usize,
        center_x: usize,
        center_y: usize,
        center_z: usize,
        default: C,
    ) -> (r: Self)
        where C: Copy
        ensures
            r.wf(),
            r.spec_size_x() == size_x,
            r.spec_size_y() == size_y,
            r.spec_size_z() == size_z,
            r.spec_center_x() == center_x,
            r.spec_center_y() == center_y,
            r.spec_center_z() == center_z,
            forall|x: int| 0 <= x < size_x ==> Self::plane_filled(
                #[trigger] r.planes().contents()[x],
                size_y as int, center_y as int, size_z as int, center_z as int, default),
    {
        let mut planes_vec: Vec<DoubleSidedVec<DoubleSidedVec<C>>> = Vec::with_capacity(size_x);
        let mut n: usize = 0;
        while n < size_x
            invariant
                n <= size_x,
                planes_vec@.len() == n,
                forall|x: int| 0 <= x < n ==> Self::plane_filled(
                    #[trigger] planes_vec@[x],
                    size_y as int, center_y as int, size_z as int, center_z as int, default),
            decreases size_x - n,
        {
            let mut rows_vec: Vec<DoubleSidedVec<C>> = Vec::with_capacity(size_y);
            let mut m: usize = 0;
            while m < size_y
                invariant
                    m <= size_y,
                    rows_vec@.len() == m,
                    forall|y: int| 0 <= y < m ==> Self::row_filled(
                        #[trigger] rows_vec@[y], size_z as int, center_z as int, default),
                decreases size_y - m,
            {
                rows_vec.push(DoubleSidedVec::from_elem_center(default, size_z, center_z));
                m = m + 1;
            }
            planes_vec.push(DoubleSidedVec::from_vec(center_y, rows_vec));
            n = n + 1;
        }
        Self {
            size_x,
            size_y,
            size_z,
            center_x,
            center_y,
            center_z,
            grid: DoubleSidedVec::from_vec(center_x, planes_vec),
        }
    }

    /// A cube of `count` cells along each axis, every one holding
    /// `default`, with each center at `count / 2`.
    pub fn from_elem(default: C, count: usize) -> (r: Self) where C: Copy
        ensures
            r.wf(),
            r.spec_size_x() == count,
            r.spec_size_y() == count,
            r.spec_size_z() == count,
            r.spec_center_x() == count / 2,
            r.spec_center_y() == count / 2,
            r.spec_center_z() == count / 2,
            forall|x: int| 0 <= x < count ==> Self::plane_filled(
                #[trigger] r.planes().contents()[x],
                count as int, count as int / 2, count as int, count as int / 2, default),
    {
        Self::new_center(count, count, count, count / 2, count / 2, count / 2, default)
    }

    /// Re-bases the x axis: overwrites the recorded x center and the outer
    /// center marker; no data moves.
    pub fn set_center_x(&mut self, center: usize)
        ensures
            final(self).spec_center_x() == center,
            final(self).spec_center_y() == old(self).spec_center_y(),
            final(self).spec_center_z() == old(self).spec_center_z(),
            final(self).spec_size_x() == old(self).spec_size_x(),
            final(self).spec_size_y() == old(self).spec_size_y(),
            final(self).spec_size_z() == old(self).spec_size_z(),
            final(self).planes().center() == center,
            final(self).planes().contents() == old(self).planes().contents(),
            old(self).wf() ==> final(self).wf(),
    {
        self.center_x = center;
        self.grid.set_center(center);
    }

    /// Overwrites the recorded z center field and the center marker of
    /// every plane. Note: the field written is the z one, not the y one,
    /// while the markers moved are the planes' y-level markers; this
    /// long-standing mismatch is kept as established behavior, so after a
    /// call the recorded y and z centers no longer describe the storage.
    pub fn set_center_y(&mut self, center: usize)
        ensures
            final(self).spec_center_z() == center,
            final(self).spec_center_y() == old(self).spec_center_y(),
            final(self).spec_center_x() == old(self).spec_center_x(),
            final(self).spec_size_x() == old(self).spec_size_x(),
            final(self).spec_size_y() == old(self).spec_size_y(),
            final(self).spec_size_z() == old(self).spec_size_z(),
            final(self).planes().center() == old(self).planes().center(),
            final(self).planes().contents().len() == old(self).planes().contents().len(),
            forall|x: int| 0 <= x < old(self).planes().contents().len()
                ==> (#[trigger] final(self).planes().contents()[x]).center() == center
                    && final(self).planes().contents()[x].contents()
                        == old(self).planes().contents()[x].contents(),
    {
        self.center_z = center;
        let ghost orig: Seq<DoubleSidedVec<DoubleSidedVec<C>>> = self.grid.contents();
        let planes_vec: &mut Vec<DoubleSidedVec<DoubleSidedVec<C>>> = self.grid.iter_mut();
        let n: usize = planes_vec.len();
        let mut x: usize = 0;
        while x < n
            invariant
                x <= n,
                planes_vec@.len() == n,
                n == orig.len(),
                forall|i: int| 0 <= i < x
                    ==> (#[trigger] planes_vec@[i]).center() == center
                        && planes_vec@[i].contents() == orig[i].contents(),
                forall|i: int| x <= i < n ==> planes_vec@[i] == orig[i],
            decreases n - x,
        {
            let plane: &mut DoubleSidedVec<DoubleSidedVec<C>> = vec_elem_mut(planes_vec, x);
            plane.set_center(center);
            x = x + 1;
        }
    }

    /// A borrow of the underlying double sided vec of planes.
    pub fn grid(&self) -> (r: &DoubleSidedVec<DoubleSidedVec<DoubleSidedVec<C>>>)
        ensures
            *r == self.planes(),
    {
        &self.grid
    }

    /// The same borrow as `grid`; the underlying storage is handed out
    /// read-only so its shape cannot be changed behind the recorded sizes.
    pub fn grid_mut(&mut self) -> (r: &DoubleSidedVec<DoubleSidedVec<DoubleSidedVec<C>>>)
        ensures
            *r == old(self).planes(),
            *final(self) == *old(self),
    {
        &self.grid
    }

    /// The cell at `location`, or `None` when any coordinate is out of
    /// range at its nesting level.
    pub fn get(&self, location: (isize, isize, isize)) -> (r: Option<&C>)
        ensures
            self.cell_in_range(location.0 as int, location.1 as int, location.2 as int)
                ==> (r matches Some(v)
                    && *v == self.cell(location.0 as int, location.1 as int, location.2 as int)),
            !self.cell_in_range(location.0 as int, location.1 as int, location.2 as int)
                ==> r is None,
    {
        match self.grid.get(location.0) {
            Some(plane) => match plane.get(location.1) {
                Some(row) => row.get(location.2),
                None => None,
            },
            None => None,
        }
    }

    /// Unchecked access to the cell at `location`: the caller must have
    /// established that all three coordinates are in range.
    pub fn index(&self, location: (isize, isize, isize)) -> (r: &C)
        requires
            self.cell_in_range(location.0 as int, location.1 as int, location.2 as int),
        ensures
            *r == self.cell(location.0 as int, location.1 as int, location.2 as int),
    {
        self.grid.index(location.0).index(location.1).index(location.2)
    }

    /// The addressable x coordinate bounds, as `(min, max_exclusive)`.
    pub fn lens_x(&self) -> (r: (isize, isize))
        requires
            self.planes().fits_isize(),
        ensures
            r.0 == self.planes().lo(),
            r.1 == self.planes().hi(),
    {
        self.grid.lens()
    }

    /// The addressable x coordinate bounds, as a half-open range.
    pub fn range_x(&self) -> (r: core::ops::Range<isize>)
        requires
            self.planes().fits_isize(),
        ensures
            r.start == self.planes().lo(),
            r.end == self.planes().hi(),
    {
        self.grid.range()
    }

    /// The addressable y coordinate bounds, read from the plane at x
    /// coordinate 0; a grid with no plane there yields `(0, 0)`.
    pub fn lens_y(&self) -> (r: (isize, isize))
        requires
            self.planes().in_range(0) ==> self.plane(0).fits_isize(),
        ensures
            self.planes().in_range(0) ==> r.0 == self.plane(0).lo() && r.1 == self.plane(0).hi(),
            !self.planes().in_range(0) ==> r == (0isize, 0isize),
    {
        match self.grid.get(0) {
            Some(plane) => plane.lens(),
            None => (0, 0),
        }
    }

    /// The addressable y coordinate bounds, as a half-open range, read
    /// from the plane at x coordinate 0; empty when that plane is absent.
    pub fn range_y(&self) -> (r: core::ops::Range<isize>)
        requires
            self.planes().in_range(0) ==> self.plane(0).fits_isize(),
        ensures
            self.planes().in_range(0)
                ==> r.start == self.plane(0).lo() && r.end == self.plane(0).hi(),
            !self.planes().in_range(0) ==> r.start == 0 && r.end == 0,
    {
        match self.grid.get(0) {
            Some(plane) => plane.range(),
            None => 0..0,
        }
    }

    /// The addressable z coordinate bounds, read from the row at
    /// coordinates `(0, 0)`; `(0, 0)` when that row is absent.
    pub fn lens_z(&self) -> (r: (isize, isize))
        requires
            self.planes().in_range(0) && self.plane(0).in_range(0)
                ==> self.row(0, 0).fits_isize(),
        ensures
            self.planes().in_range(0) && self.plane(0).in_range(0)
                ==> r.0 == self.row(0, 0).lo() && r.1 == self.row(0, 0).hi(),
            !(self.planes().in_range(0) && self.plane(0).in_range(0))
                ==> r == (0isize, 0isize),
    {
        match self.grid.get(0) {
            Some(plane) => match plane.get(0) {
                Some(row) => row.lens(),
                None => (0, 0),
            },
            None => (0, 0),
        }
    }

    /// The addressable z coordinate bounds, as a half-open range, read
    /// from the row at coordinates `(0, 0)`; empty when that row is
    /// absent.
    pub fn range_z(&self) -> (r: core::ops::Range<isize>)
        requires
            self.planes().in_range(0) && self.plane(0).in_range(0)
                ==> self.row(0, 0).fits_isize(),
        ensures
            self.planes().in_range(0) && self.plane(0).in_range(0)
                ==> r.start == self.row(0, 0).lo() && r.end == self.row(0, 0).hi(),
            !(self.planes().in_range(0) && self.plane(0).in_range(0))
                ==> r.start == 0 && r.end == 0,
    {
        match self.grid.get(0) {
            Some(plane) => match plane.get(0) {
                Some(row) => row.range(),
                None => 0..0,
            },
            None => 0..0,
        }
    }
    /// Unchecked mutable access to the cell at `location`, under the same
    /// obligation as `index`. Everything but the addressed cell stays as
    /// it was.
    pub fn index_mut(&mut self, location: (isize, isize, isize)) -> (r: &mut C)
        requires
            old(self).cell_in_range(location.0 as int, location.1 as int, location.2 as int),
        ensures
            *r == old(self).cell(location.0 as int, location.1 as int, location.2 as int),
            final(self).spec_size_x() == old(self).spec_size_x(),
            final(self).spec_size_y() == old(self).spec_size_y(),
            final(self).spec_size_z() == old(self).spec_size_z(),
            final(self).spec_center_x() == old(self).spec_center_x(),
            final(self).spec_center_y() == old(self).spec_center_y(),
            final(self).spec_center_z() == old(self).spec_center_z(),
            final(self).planes().center() == old(self).planes().center(),
            final(self).planes().contents().len() == old(self).planes().contents().len(),
            forall|x: int| 0 <= x < old(self).planes().contents().len()
                && x != old(self).planes().center() + location.0
                ==> #[trigger] final(self).planes().contents()[x]
                    == old(self).planes().contents()[x],
            final(self).plane(location.0 as int).center()
                == old(self).plane(location.0 as int).center(),
            final(self).plane(location.0 as int).contents().len()
                == old(self).plane(location.0 as int).contents().len(),
            forall|y: int| 0 <= y < old(self).plane(location.0 as int).contents().len()
                && y != old(self).plane(location.0 as int).center() + location.1
                ==> #[trigger] final(self).plane(location.0 as int).contents()[y]
                    == old(self).plane(location.0 as int).contents()[y],
            final(self).row(location.0 as int, location.1 as int).center()
                == old(self).row(location.0 as int, location.1 as int).center(),
            final(self).row(location.0 as int, location.1 as int).contents()
                == old(self).row(location.0 as int, location.1 as int).contents().update(
                    old(self).row(location.0 as int, location.1 as int).center() + location.2,
                    *final(r)),
    {
        self.grid.index_mut(location.0).index_mut(location.1).index_mut(location.2)
    }

    /// A fresh plane of default values with the given shape.
    fn make_default_plane(
        size_y: usize,
        center_y: usize,
        size_z: usize,
        center_z: usize,
    ) -> (p: DoubleSidedVec<DoubleSidedVec<C>>)
        where C: Copy + Default
        ensures
            Self::plane_default_filled(p, size_y as int, center_y as int,
                size_z as int, center_z as int),
    {
        let mut rows_vec: Vec<DoubleSidedVec<C>> = Vec::with_capacity(size_y);
        let mut m: usize = 0;
        while m < size_y
            invariant
                m <= size_y,
                rows_vec@.len() == m,
                forall|y: int| 0 <= y < m ==> Self::row_default_filled(
                    #[trigger] rows_vec@[y], size_z as int, center_z as int),
            decreases size_y - m,
        {
            rows_vec.push(DoubleSidedVec::from_elem_center(C::default(), size_z, center_z));
            m = m + 1;
        }
        DoubleSidedVec::from_vec(center_y, rows_vec)
    }

    /// Grows the x axis by `amount` new planes on the negative side, each
    /// a fresh default-filled plane shaped like the existing ones; the
    /// recorded x size and x center both move up by `amount`.
    pub fn expand_neg_x(&mut self, amount: usize) where C: Copy + Default
        requires
            old(self).wf(),
            old(self).spec_size_x() + amount <= usize::MAX,
            old(self).spec_center_x() + amount <= usize::MAX,
        ensures
            final(self).wf(),
            final(self).spec_size_x() == old(self).spec_size_x() + amount,
            final(self).spec_center_x() == old(self).spec_center_x() + amount,
            final(self).spec_size_y() == old(self).spec_size_y(),
            final(self).spec_center_y() == old(self).spec_center_y(),
            final(self).spec_size_z() == old(self).spec_size_z(),
            final(self).spec_center_z() == old(self).spec_center_z(),
            final(self).planes().contents().len()
                == old(self).planes().contents().len() + amount,
            forall|x: int| 0 <= x < amount ==> Self::plane_default_filled(
                #[trigger] final(self).planes().contents()[x],
                old(self).spec_size_y(), old(self).spec_center_y(),
                old(self).spec_size_z(), old(self).spec_center_z()),
            forall|x: int| amount <= x < final(self).planes().contents().len()
                ==> #[trigger] final(self).planes().contents()[x]
                    == old(self).planes().contents()[x - amount],
    {
        let mut k: usize = 0;
        while k < amount
            invariant
                k <= amount,
                old(self).wf(),
                old(self).spec_size_x() + amount <= usize::MAX,
                old(self).spec_center_x() + amount <= usize::MAX,
                self.size_x == old(self).size_x,
                self.size_y == old(self).size_y,
                self.size_z == old(self).size_z,
                self.center_x == old(self).center_x,
                self.center_y == old(self).center_y,
                self.center_z == old(self).center_z,
                self.grid.center() == old(self).spec_center_x() + k,
                self.grid.contents().len() == old(self).spec_size_x() + k,
                forall|x: int| 0 <= x < k ==> Self::plane_default_filled(
                    #[trigger] self.grid.contents()[x],
                    old(self).spec_size_y(), old(self).spec_center_y(),
                    old(self).spec_size_z(), old(self).spec_center_z()),
                forall|x: int| k <= x < self.grid.contents().len()
                    ==> #[trigger] self.grid.contents()[x]
                        == old(self).planes().contents()[x - k],
            decreases amount - k,
        {
            let plane = Self::make_default_plane(
                self.size_y, self.center_y, self.size_z, self.center_z);
            self.grid.push_back(plane);
            k = k + 1;
        }
        self.size_x = self.size_x + amount;
        self.center_x = self.center_x + amount;
    }

    /// Grows the x axis by `amount` new planes on the positive side, each
    /// a fresh default-filled plane shaped like the existing ones; the
    /// recorded x size grows by `amount` and the x center stays.
    pub fn expand_pos_x(&mut self, amount: usize) where C: Copy + Default
        requires
            old(self).wf(),
            old(self).spec_size_x() + amount <= usize::MAX,
        ensures
            final(self).wf(),
            final(self).spec_size_x() == old(self).spec_size_x() + amount,
            final(self).spec_center_x() == old(self).spec_center_x(),
            final(self).spec_size_y() == old(self).spec_size_y(),
            final(self).spec_center_y() == old(self).spec_center_y(),
            final(self).spec_size_z() == old(self).spec_size_z(),
            final(self).spec_center_z() == old(self).spec_center_z(),
            final(self).planes().center() == old(self).planes().center(),
            final(self).planes().contents().len()
                == old(self).planes().contents().len() + amount,
            forall|x: int| 0 <= x < old(self).planes().contents().len()
                ==> #[trigger] final(self).planes().contents()[x]
                    == old(self).planes().contents()[x],
            forall|x: int| old(self).planes().contents().len() <= x
                < final(self).planes().contents().len()
                ==> Self::plane_default_filled(#[trigger] final(self).planes().contents()[x],
                    old(self).spec_size_y(), old(self).spec_center_y(),
                    old(self).spec_size_z(), old(self).spec_center_z()),
    {
        let mut k: usize = 0;
        while k < amount
            invariant
                k <= amount,
                old(self).wf(),
                old(self).spec_size_x() + amount <= usize::MAX,
                self.size_x == old(self).size_x,
                self.size_y == old(self).size_y,
                self.size_z == old(self).size_z,
                self.center_x == old(self).center_x,
                self.center_y == old(self).center_y,
                self.center_z == old(self).center_z,
                self.grid.center() == old(self).planes().center(),
                self.grid.contents().len() == old(self).spec_size_x() + k,
                forall|x: int| 0 <= x < old(self).planes().contents().len()
                    ==> #[trigger] self.grid.contents()[x]
                        == old(self).planes().contents()[x],
                forall|x: int| old(self).planes().contents().len() <= x
                    < self.grid.contents().len()
                    ==> Self::plane_default_filled(#[trigger] self.grid.contents()[x],
                        old(self).spec_size_y(), old(self).spec_center_y(),
                        old(self).spec_size_z(), old(self).spec_center_z()),
            decreases amount - k,
        {
            let plane = Self::make_default_plane(
                self.size_y, self.center_y, self.size_z, self.center_z);
            self.grid.push_front(plane);
            k = k + 1;
        }
        self.size_x = self.size_x + amount;
    }

    /// Grows every plane by `amount` default-filled rows on the negative
    /// side; the recorded y size and y center both move up by `amount`.
    pub fn expand_neg_y(&mut self, amount: usize) where C: Copy + Default
        requires
            old(self).wf(),
            old(self).spec_size_y() + amount <= usize::MAX,
            old(self).spec_center_y() + amount <= usize::MAX,
        ensures
            final(self).wf(),
            final(self).spec_size_y() == old(self).spec_size_y() + amount,
            final(self).spec_center_y() == old(self).spec_center_y() + amount,
            final(self).spec_size_x() == old(self).spec_size_x(),
            final(self).spec_center_x() == old(self).spec_center_x(),
            final(self).spec_size_z() == old(self).spec_size_z(),
            final(self).spec_center_z() == old(self).spec_center_z(),
            final(self).planes().center() == old(self).planes().center(),
            final(self).planes().contents().len() == old(self).planes().contents().len(),
            forall|x: int| 0 <= x < old(self).planes().contents().len() ==> {
                &&& (#[trigger] final(self).planes().contents()[x]).center()
                    == old(self).spec_center_y() + amount
                &&& final(self).planes().contents()[x].contents().len()
                    == old(self).spec_size_y() + amount
                &&& forall|y: int| 0 <= y < amount ==> Self::row_default_filled(
                    #[trigger] final(self).planes().contents()[x].contents()[y],
                    old(self).spec_size_z(), old(self).spec_center_z())
                &&& forall|y: int| amount <= y < old(self).spec_size_y() + amount
                    ==> #[trigger] final(self).planes().contents()[x].contents()[y]
                        == old(self).planes().contents()[x].contents()[y - amount]
            },
    {
        let ghost orig: Seq<DoubleSidedVec<DoubleSidedVec<C>>> = self.grid.contents();
        let planes_vec: &mut Vec<DoubleSidedVec<DoubleSidedVec<C>>> = self.grid.iter_mut();
        let n: usize = planes_vec.len();
        let mut x: usize = 0;
        while x < n
            invariant
                x <= n,
                old(self).wf(),
                old(self).spec_center_y() + amount <= usize::MAX,
                self.size_z == old(self).size_z,
                self.center_z == old(self).center_z,
                planes_vec@.len() == n,
                n == orig.len(),
                orig == old(self).planes().contents(),
                forall|i: int| 0 <= i < x ==> {
                    &&& (#[trigger] planes_vec@[i]).center()
                        == old(self).spec_center_y() + amount
                    &&& planes_vec@[i].contents().len() == old(self).spec_size_y() + amount
                    &&& forall|y: int| 0 <= y < amount ==> Self::row_default_filled(
                        #[trigger] planes_vec@[i].contents()[y],
                        old(self).spec_size_z(), old(self).spec_center_z())
                    &&& forall|y: int| amount <= y < old(self).spec_size_y() + amount
                        ==> #[trigger] planes_vec@[i].contents()[y]
                            == orig[i].contents()[y - amount]
                },
                forall|i: int| x <= i < n ==> planes_vec@[i] == orig[i],
            decreases n - x,
        {
            proof {
                assert(old(self).planes().contents()[x as int].center()
                    == old(self).spec_center_y());
                assert(old(self).planes().contents()[x as int].contents().len()
                    == old(self).spec_size_y());
            }
            let plane: &mut DoubleSidedVec<DoubleSidedVec<C>> = vec_elem_mut(planes_vec, x);
            let mut k: usize = 0;
            while k < amount
                invariant
                    k <= amount,
                    x < n,
                    self.size_z == old(self).size_z,
                    self.center_z == old(self).center_z,
                    old(self).spec_center_y() + amount <= usize::MAX,
                    plane.center() == old(self).spec_center_y() + k,
                    plane.contents().len() == old(self).spec_size_y() + k,
                    forall|y: int| 0 <= y < k ==> Self::row_default_filled(
                        #[trigger] plane.contents()[y],
                        old(self).spec_size_z(), old(self).spec_center_z()),
                    forall|y: int| k <= y < plane.contents().len()
                        ==> #[trigger] plane.contents()[y] == orig[x as int].contents()[y - k],
                decreases amount - k,
            {
                let row: DoubleSidedVec<C> =
                    DoubleSidedVec::from_elem_center(C::default(), self.size_z, self.center_z);
                plane.push_back(row);
                k = k + 1;
            }
            x = x + 1;
        }
        self.size_y = self.size_y + amount;
        self.center_y = self.center_y + amount;
    }

    /// Grows every plane by `amount` default-filled rows on the positive
    /// side; the recorded y size grows by `amount` and the y center stays.
    pub fn expand_pos_y(&mut self, amount: usize) where C: Copy + Default
        requires
            old(self).wf(),
            old(self).spec_size_y() + amount <= usize::MAX,
        ensures
            final(self).wf(),
            final(self).spec_size_y() == old(self).spec_size_y() + amount,
            final(self).spec_center_y() == old(self).spec_center_y(),
            final(self).spec_size_x() == old(self).spec_size_x(),
            final(self).spec_center_x() == old(self).spec_center_x(),
            final(self).spec_size_z() == old(self).spec_size_z(),
            final(self).spec_center_z() == old(self).spec_center_z(),
            final(self).planes().center() == old(self).planes().center(),
            final(self).planes().contents().len() == old(self).planes().contents().len(),
            forall|x: int| 0 <= x < old(self).planes().contents().len() ==> {
                &&& (#[trigger] final(self).planes().contents()[x]).center()
                    == old(self).spec_center_y()
                &&& final(self).planes().contents()[x].contents().len()
                    == old(self).spec_size_y() + amount
                &&& forall|y: int| 0 <= y < old(self).spec_size_y()
                    ==> #[trigger] final(self).planes().contents()[x].contents()[y]
                        == old(self).planes().contents()[x].contents()[y]
                &&& forall|y: int| old(self).spec_size_y() <= y
                    < old(self).spec_size_y() + amount
                    ==> Self::row_default_filled(
                        #[trigger] final(self).planes().contents()[x].contents()[y],
                        old(self).spec_size_z(), old(self).spec_center_z())
            },
    {
        let ghost orig: Seq<DoubleSidedVec<DoubleSidedVec<C>>> = self.grid.contents();
        let planes_vec: &mut Vec<DoubleSidedVec<DoubleSidedVec<C>>> = self.grid.iter_mut();
        let n: usize = planes_vec.len();
        let mut x: usize = 0;
        while x < n
            invariant
                x <= n,
                old(self).wf(),
                self.size_z == old(self).size_z,
                self.center_z == old(self).center_z,
                planes_vec@.len() == n,
                n == orig.len(),
                orig == old(self).planes().contents(),
                forall|i: int| 0 <= i < x ==> {
                    &&& (#[trigger] planes_vec@[i]).center() == old(self).spec_center_y()
                    &&& planes_vec@[i].contents().len() == old(self).spec_size_y() + amount
                    &&& forall|y: int| 0 <= y < old(self).spec_size_y()
                        ==> #[trigger] planes_vec@[i].contents()[y] == orig[i].contents()[y]
                    &&& forall|y: int| old(self).spec_size_y() <= y
                        < old(self).spec_size_y() + amount
                        ==> Self::row_default_filled(#[trigger] planes_vec@[i].contents()[y],
                            old(self).spec_size_z(), old(self).spec_center_z())
                },
                forall|i: int| x <= i < n ==> planes_vec@[i] == orig[i],
            decreases n - x,
        {
            proof {
                assert(old(self).planes().contents()[x as int].center()
                    == old(self).spec_center_y());
                assert(old(self).planes().contents()[x as int].contents().len()
                    == old(self).spec_size_y());
            }
            let plane: &mut DoubleSidedVec<DoubleSidedVec<C>> = vec_elem_mut(planes_vec, x);
            let mut k: usize = 0;
            while k < amount
                invariant
                    k <= amount,
                    x < n,
                    self.size_z == old(self).size_z,
                    self.center_z == old(self).center_z,
                    plane.center() == old(self).spec_center_y(),
                    plane.contents().len() == old(self).spec_size_y() + k,
                    forall|y: int| 0 <= y < old(self).spec_size_y()
                        ==> #[trigger] plane.contents()[y] == orig[x as int].contents()[y],
                    forall|y: int| old(self).spec_size_y() <= y < plane.contents().len()
                        ==> Self::row_default_filled(#[trigger] plane.contents()[y],
                            old(self).spec_size_z(), old(self).spec_center_z()),
                decreases amount - k,
            {
                let row: DoubleSidedVec<C> =
                    DoubleSidedVec::from_elem_center(C::default(), self.size_z, self.center_z);
                plane.push_front(row);
                k = k + 1;
            }
            x = x + 1;
        }
        self.size_y = self.size_y + amount;
    }

    /// Grows every row of every plane by `amount` default-filled slots on
    /// the negative side; the recorded z size and z center both move up
    /// by `amount`.
    pub fn expand_neg_z(&mut self, amount: usize) where C: Copy + Default
        requires
            old(self).wf(),
            old(self).spec_size_z() + amount <= usize::MAX,
            old(self).spec_center_z() + amount <= usize::MAX,
        ensures
            final(self).wf(),
            final(self).spec_size_z() == old(self).spec_size_z() + amount,
            final(self).spec_center_z() == old(self).spec_center_z() + amount,
            final(self).spec_size_x() == old(self).spec_size_x(),
            final(self).spec_center_x() == old(self).spec_center_x(),
            final(self).spec_size_y() == old(self).spec_size_y(),
            final(self).spec_center_y() == old(self).spec_center_y(),
            final(self).planes().center() == old(self).planes().center(),
            final(self).planes().contents().len() == old(self).planes().contents().len(),
            forall|x: int| 0 <= x < old(self).planes().contents().len() ==> {
                &&& (#[trigger] final(self).planes().contents()[x]).center()
                    == old(self).planes().contents()[x].center()
                &&& final(self).planes().contents()[x].contents().len()
                    == old(self).planes().contents()[x].contents().len()
            },
            forall|x: int, y: int| 0 <= x < old(self).planes().contents().len()
                && 0 <= y < old(self).planes().contents()[x].contents().len() ==> {
                &&& (#[trigger] final(self).planes().contents()[x].contents()[y]).center()
                    == old(self).spec_center_z() + amount
                &&& final(self).planes().contents()[x].contents()[y].contents().len()
                    == old(self).spec_size_z() + amount
                &&& forall|j: int| 0 <= j < amount ==> is_default(
                    #[trigger] final(self).planes().contents()[x].contents()[y].contents()[j])
                &&& forall|j: int| amount <= j < old(self).spec_size_z() + amount
                    ==> #[trigger] final(self).planes().contents()[x].contents()[y].contents()[j]
                        == old(self).planes().contents()[x].contents()[y].contents()[j - amount]
            },
    {
        let ghost orig: Seq<DoubleSidedVec<DoubleSidedVec<C>>> = self.grid.contents();
        let planes_vec: &mut Vec<DoubleSidedVec<DoubleSidedVec<C>>> = self.grid.iter_mut();
        let n: usize = planes_vec.len();
        let mut x: usize = 0;
        while x < n
            invariant
                x <= n,
                old(self).wf(),
                old(self).spec_center_z() + amount <= usize::MAX,
                planes_vec@.len() == n,
                n == orig.len(),
                orig == old(self).planes().contents(),
                forall|i: int| 0 <= i < x ==> {
                    &&& (#[trigger] planes_vec@[i]).center() == orig[i].center()
                    &&& planes_vec@[i].contents().len() == orig[i].contents().len()
                    &&& forall|y: int| 0 <= y < orig[i].contents().len() ==> {
                        &&& (#[trigger] planes_vec@[i].contents()[y]).center()
                            == old(self).spec_center_z() + amount
                        &&& planes_vec@[i].contents()[y].contents().len()
                            == old(self).spec_size_z() + amount
                        &&& forall|j: int| 0 <= j < amount ==> is_default(
                            #[trigger] planes_vec@[i].contents()[y].contents()[j])
                        &&& forall|j: int| amount <= j < old(self).spec_size_z() + amount
                            ==> #[trigger] planes_vec@[i].contents()[y].contents()[j]
                                == orig[i].contents()[y].contents()[j - amount]
                    }
                },
                forall|i: int| x <= i < n ==> planes_vec@[i] == orig[i],
            decreases n - x,
        {
            proof {
                assert forall|y: int| 0 <= y < orig[x as int].contents().len() implies
                    (#[trigger] orig[x as int].contents()[y]).center() + amount
                        <= usize::MAX by {
                    assert(old(self).planes().contents()[x as int].contents()[y].center()
                        == old(self).spec_center_z());
                }
            }
            let plane: &mut DoubleSidedVec<DoubleSidedVec<C>> = vec_elem_mut(planes_vec, x);
            grow_rows_negative(plane, amount);
            proof {
                assert forall|y: int| 0 <= y < orig[x as int].contents().len() implies
                    (#[trigger] orig[x as int].contents()[y]).center()
                        == old(self).spec_center_z()
                    && orig[x as int].contents()[y].contents().len()
                        == old(self).spec_size_z() by {
                    assert(old(self).planes().contents()[x as int].contents()[y].center()
                        == old(self).spec_center_z());
                }
            }
            x = x + 1;
        }
        self.size_z = self.size_z + amount;
        self.center_z = self.center_z + amount;
    }

    /// Grows every row of every plane by `amount` default-filled slots on
    /// the positive side; the recorded z size grows by `amount` and the z
    /// center stays.
    pub fn expand_pos_z(&mut self, amount: usize) where C: Copy + Default
        requires
            old(self).wf(),
            old(self).spec_size_z() + amount <= usize::MAX,
        ensures
            final(self).wf(),
            final(self).spec_size_z() == old(self).spec_size_z() + amount,
            final(self).spec_center_z() == old(self).spec_center_z(),
            final(self).spec_size_x() == old(self).spec_size_x(),
            final(self).spec_center_x() == old(self).spec_center_x(),
            final(self).spec_size_y() == old(self).spec_size_y(),
            final(self).spec_center_y() == old(self).spec_center_y(),
            final(self).planes().center() == old(self).planes().center(),
            final(self).planes().contents().len() == old(self).planes().contents().len(),
            forall|x: int| 0 <= x < old(self).planes().contents().len() ==> {
                &&& (#[trigger] final(self).planes().contents()[x]).center()
                    == old(self).planes().contents()[x].center()
                &&& final(self).planes().contents()[x].contents().len()
                    == old(self).planes().contents()[x].contents().len()
            },
            forall|x: int, y: int| 0 <= x < old(self).planes().contents().len()
                && 0 <= y < old(self).planes().contents()[x].contents().len() ==> {
                &&& (#[trigger] final(self).planes().contents()[x].contents()[y]).center()
                    == old(self).spec_center_z()
                &&& final(self).planes().contents()[x].contents()[y].contents().len()
                    == old(self).spec_size_z() + amount
                &&& forall|j: int| 0 <= j < old(self).spec_size_z()
                    ==> #[trigger] final(self).planes().contents()[x].contents()[y].contents()[j]
                        == old(self).planes().contents()[x].contents()[y].contents()[j]
                &&& forall|j: int| old(self).spec_size_z() <= j
                    < old(self).spec_size_z() + amount
                    ==> is_default(
                        #[trigger] final(self).planes().contents()[x].contents()[y].contents()[j])
            },
    {
        let ghost orig: Seq<DoubleSidedVec<DoubleSidedVec<C>>> = self.grid.contents();
        let planes_vec: &mut Vec<DoubleSidedVec<DoubleSidedVec<C>>> = self.grid.iter_mut();
        let n: usize = planes_vec.len();
        let mut x: usize = 0;
        while x < n
            invariant
                x <= n,
                old(self).wf(),
                planes_vec@.len() == n,
                n == orig.len(),
                orig == old(self).planes().contents(),
                forall|i: int| 0 <= i < x ==> {
                    &&& (#[trigger] planes_vec@[i]).center() == orig[i].center()
                    &&& planes_vec@[i].contents().len() == orig[i].contents().len()
                    &&& forall|y: int| 0 <= y < orig[i].contents().len() ==> {
                        &&& (#[trigger] planes_vec@[i].contents()[y]).center()
                            == old(self).spec_center_z()
                        &&& planes_vec@[i].contents()[y].contents().len()
                            == old(self).spec_size_z() + amount
                        &&& forall|j: int| 0 <= j < old(self).spec_size_z()
                            ==> #[trigger] planes_vec@[i].contents()[y].contents()[j]
                                == orig[i].contents()[y].contents()[j]
                        &&& forall|j: int| old(self).spec_size_z() <= j
                            < old(self).spec_size_z() + amount
                            ==> is_default(#[trigger] planes_vec@[i].contents()[y].contents()[j])
                    }
                },
                forall|i: int| x <= i < n ==> planes_vec@[i] == orig[i],
            decreases n - x,
        {
            let plane: &mut DoubleSidedVec<DoubleSidedVec<C>> = vec_elem_mut(planes_vec, x);
            grow_rows_positive(plane, amount);
            proof {
                assert forall|y: int| 0 <= y < orig[x as int].contents().len() implies
                    (#[trigger] orig[x as int].contents()[y]).center()
                        == old(self).spec_center_z()
                    && orig[x as int].contents()[y].contents().len()
                        == old(self).spec_size_z() by {
                    assert(old(self).planes().contents()[x as int].contents()[y].center()
                        == old(self).spec_center_z());
                }
            }
            x = x + 1;
        }
        self.size_z = self.size_z + amount;
    }
    /// The recorded sizes and centers, the outer structure, and the
    /// length and center of every plane and every row agree between
    /// `pre` and `post`.
    pub open spec fn frame_preserved(pre: Self, post: Self) -> bool {
        &&& post.spec_size_x() == pre.spec_size_x()
        &&& post.spec_size_y() == pre.spec_size_y()
        &&& post.spec_size_z() == pre.spec_size_z()
        &&& post.spec_center_x() == pre.spec_center_x()
        &&& post.spec_center_y() == pre.spec_center_y()
        &&& post.spec_center_z() == pre.spec_center_z()
        &&& post.planes().center() == pre.planes().center()
        &&& post.planes().contents().len() == pre.planes().contents().len()
        &&& forall|x: int| 0 <= x < pre.planes().contents().len()
            ==> (#[trigger] post.planes().contents()[x]).center()
                    == pre.planes().contents()[x].center()
                && post.planes().contents()[x].contents().len()
                    == pre.planes().contents()[x].contents().len()
        &&& forall|x: int, y: int| 0 <= x < pre.planes().contents().len()
            && 0 <= y < pre.planes().contents()[x].contents().len()
            ==> (#[trigger] post.planes().contents()[x].contents()[y]).center()
                    == pre.planes().contents()[x].contents()[y].center()
                && post.planes().contents()[x].contents()[y].contents().len()
                    == pre.planes().contents()[x].contents()[y].contents().len()
    }

    /// The two grids agree on every observable part: the recorded sizes
    /// and centers, the structure at every level, and every cell.
    pub open spec fn same_state(a: Self, b: Self) -> bool {
        &&& Self::frame_preserved(a, b)
        &&& forall|x: int, y: int| 0 <= x < a.planes().contents().len()
            && 0 <= y < a.planes().contents()[x].contents().len()
            ==> (#[trigger] b.planes().contents()[x].contents()[y]).contents()
                == a.planes().contents()[x].contents()[y].contents()
    }

    /// The cells of `post` are those of `pre` with the values at `a` and
    /// `b` exchanged, inside an unchanged frame.
    pub open spec fn swapped(
        pre: Self,
        post: Self,
        ax: int,
        ay: int,
        az: int,
        bx: int,
        by: int,
        bz: int,
    ) -> bool {
        &&& Self::frame_preserved(pre, post)
        &&& post.cell(bx, by, bz) == pre.cell(ax, ay, az)
        &&& post.cell(ax, ay, az) == pre.cell(bx, by, bz)
        &&& forall|x: int, y: int, z: int| pre.cell_in_range(x, y, z)
            && !(x == ax && y == ay && z == az) && !(x == bx && y == by && z == bz)
            ==> #[trigger] post.cell(x, y, z) == pre.cell(x, y, z)
    }

    /// The cells of `post` are those of `pre` with the value at `from`
    /// copied over `to` and a fresh default value left at `from`, inside
    /// an unchanged frame.
    pub open spec fn moved(
        pre: Self,
        post: Self,
        fx: int,
        fy: int,
        fz: int,
        tx: int,
        ty: int,
        tz: int,
    ) -> bool
        where C: Default
    {
        &&& Self::frame_preserved(pre, post)
        &&& is_default(post.cell(fx, fy, fz))
        &&& !(tx == fx && ty == fy && tz == fz)
            ==> post.cell(tx, ty, tz) == pre.cell(fx, fy, fz)
        &&& forall|x: int, y: int, z: int| pre.cell_in_range(x, y, z)
            && !(x == fx && y == fy && z == fz) && !(x == tx && y == ty && z == tz)
            ==> #[trigger] post.cell(x, y, z) == pre.cell(x, y, z)
    }

    /// Exchanges the two cells at `locations` in place. Both coordinate
    /// triples must be in range: this goes through the unchecked access
    /// path.
    pub fn swap_cells(&mut self, locations: ((isize, isize, isize), (isize, isize, isize)))
        where C: Copy
        requires
            old(self).cell_in_range(
                locations.0.0 as int, locations.0.1 as int, locations.0.2 as int),
            old(self).cell_in_range(
                locations.1.0 as int, locations.1.1 as int, locations.1.2 as int),
        ensures
            Self::swapped(*old(self), *final(self),
                locations.0.0 as int, locations.0.1 as int, locations.0.2 as int,
                locations.1.0 as int, locations.1.1 as int, locations.1.2 as int),
    {
        let temp: C = *self.index(locations.1);
        let source: C = *self.index(locations.0);
        *self.index_mut(locations.1) = source;
        *self.index_mut(locations.0) = temp;
    }

    /// Copies the cell at `locations.0` over the cell at `locations.1`,
    /// then leaves a fresh default value at `locations.0`. Both
    /// coordinate triples must be in range: this goes through the
    /// unchecked access path.
    pub fn move_cell(&mut self, locations: ((isize, isize, isize), (isize, isize, isize)))
        where C: Copy + Default
        requires
            old(self).cell_in_range(
                locations.0.0 as int, locations.0.1 as int, locations.0.2 as int),
            old(self).cell_in_range(
                locations.1.0 as int, locations.1.1 as int, locations.1.2 as int),
        ensures
            Self::moved(*old(self), *final(self),
                locations.0.0 as int, locations.0.1 as int, locations.0.2 as int,
                locations.1.0 as int, locations.1.1 as int, locations.1.2 as int),
    {
        let source: C = *self.index(locations.0);
        *self.index_mut(locations.1) = source;
        *self.index_mut(locations.0) = C::default();
    }

    /// The elements of one plane, flattened row by row.
    pub open spec fn plane_flat(p: DoubleSidedVec<DoubleSidedVec<C>>) -> Seq<C> {
        concat_all(p.contents().map_values(|row: DoubleSidedVec<C>| row.contents()))
    }

    /// All cells in outer-then-middle-then-inner traversal order.
    pub open spec fn flat(&self) -> Seq<C> {
        concat_all(self.planes().contents().map_values(
            |p: DoubleSidedVec<DoubleSidedVec<C>>| Self::plane_flat(p)))
    }

    /// Borrows of all cells, flattened in outer-then-middle-then-inner
    /// traversal order.
    pub fn cells(&self) -> (r: Vec<&C>)
        ensures
            r@.map_values(|c: &C| *c) == self.flat(),
    {
        let ghost pseqs: Seq<Seq<C>> = self.planes().contents().map_values(
            |p: DoubleSidedVec<DoubleSidedVec<C>>| Self::plane_flat(p));
        let planes_ref: &Vec<DoubleSidedVec<DoubleSidedVec<C>>> = self.grid.iter();
        let mut result: Vec<&C> = Vec::new();
        let n: usize = planes_ref.len();
        proof {
            assert(pseqs.take(0) =~= Seq::<Seq<C>>::empty());
            assert(result@.map_values(|c: &C| *c) =~= concat_all(pseqs.take(0)));
        }
        let mut x: usize = 0;
        while x < n
            invariant
                x <= n,
                n == planes_ref@.len(),
                planes_ref@ == self.planes().contents(),
                pseqs == self.planes().contents().map_values(
                    |p: DoubleSidedVec<DoubleSidedVec<C>>| Self::plane_flat(p)),
                pseqs.len() == n,
                result@.map_values(|c: &C| *c) == concat_all(pseqs.take(x as int)),
            decreases n - x,
        {
            let ghost prev: Seq<&C> = result@;
            let mut part: Vec<&C> = plane_cells(&planes_ref[x]);
            let ghost part_snapshot: Seq<&C> = part@;
            result.append(&mut part);
            proof {
                assert(part_snapshot.map_values(|c: &C| *c) == pseqs[x as int]);
                lemma_concat_all_step::<C>(pseqs, x as int);
                let vals = result@.map_values(|c: &C| *c);
                let goal = concat_all(pseqs.take(x as int)) + pseqs[x as int];
                assert(result@ == prev + part_snapshot);
                assert(prev.map_values(|c: &C| *c).len() == prev.len());
                assert(vals.len() == goal.len());
                assert forall|i: int| 0 <= i < vals.len() implies vals[i] == goal[i] by {
                    if i < prev.len() {
                        assert(vals[i] == prev.map_values(|c: &C| *c)[i]);
                    } else {
                        assert(result@[i] == part_snapshot[i - prev.len()]);
                        assert(vals[i]
                            == part_snapshot.map_values(|c: &C| *c)[i - prev.len()]);
                    }
                }
                assert(vals =~= goal);
            }
            x = x + 1;
        }
        proof {
            assert(pseqs.take(n as int) =~= pseqs);
        }
        result
    }

    /// Rectangularity: in a well-formed grid, any two planes have the
    /// same row count and center, and any two rows anywhere in the grid
    /// have the same length and the same center. The constructors
    /// establish well-formedness and every expansion preserves it, so
    /// this holds after any of them.
    pub proof fn lemma_wf_rectangular(g: Self)
        requires
            g.wf(),
        ensures
            forall|x1: int, x2: int|
                0 <= x1 < g.planes().contents().len() && 0 <= x2 < g.planes().contents().len()
                ==> (#[trigger] g.planes().contents()[x1]).center()
                        == (#[trigger] g.planes().contents()[x2]).center()
                    && g.planes().contents()[x1].contents().len()
                        == g.planes().contents()[x2].contents().len(),
            forall|x1: int, y1: int, x2: int, y2: int|
                0 <= x1 < g.planes().contents().len()
                && 0 <= y1 < g.planes().contents()[x1].contents().len()
                && 0 <= x2 < g.planes().contents().len()
                && 0 <= y2 < g.planes().contents()[x2].contents().len()
                ==> (#[trigger] g.planes().contents()[x1].contents()[y1]).center()
                        == (#[trigger] g.planes().contents()[x2].contents()[y2]).center()
                    && g.planes().contents()[x1].contents()[y1].contents().len()
                        == g.planes().contents()[x2].contents()[y2].contents().len(),
    {
    }

    /// Swapping the same two cells twice in succession restores every
    /// observable part of the grid: sizes, centers, and every cell.
    pub proof fn lemma_swap_twice_restores(
        s0: Self,
        s1: Self,
        s2: Self,
        ax: int,
        ay: int,
        az: int,
        bx: int,
        by: int,
        bz: int,
    )
        requires
            s0.cell_in_range(ax, ay, az),
            s0.cell_in_range(bx, by, bz),
            Self::swapped(s0, s1, ax, ay, az, bx, by, bz),
            Self::swapped(s1, s2, ax, ay, az, bx, by, bz),
        ensures
            Self::same_state(s0, s2),
    {
        let cx = s0.planes().center();
        assert forall|x: int, y: int| 0 <= x < s0.planes().contents().len()
            && 0 <= y < s0.planes().contents()[x].contents().len() implies
            (#[trigger] s2.planes().contents()[x].contents()[y]).contents()
                == s0.planes().contents()[x].contents()[y].contents() by {
            let lx = x - cx;
            let pc = s0.planes().contents()[x].center();
            let ly = y - pc;
            let rc = s0.planes().contents()[x].contents()[y].center();
            assert forall|j: int|
                0 <= j < s0.planes().contents()[x].contents()[y].contents().len() implies
                s2.planes().contents()[x].contents()[y].contents()[j]
                    == s0.planes().contents()[x].contents()[y].contents()[j] by {
                let lz = j - rc;
                assert(s0.cell_in_range(lx, ly, lz));
                assert(s1.cell_in_range(lx, ly, lz));
                assert(s0.cell(lx, ly, lz)
                    == s0.planes().contents()[x].contents()[y].contents()[j]);
                assert(s2.cell(lx, ly, lz)
                    == s2.planes().contents()[x].contents()[y].contents()[j]);
                if lx == ax && ly == ay && lz == az {
                    assert(s2.cell(lx, ly, lz) == s0.cell(lx, ly, lz));
                } else if lx == bx && ly == by && lz == bz {
                    assert(s2.cell(lx, ly, lz) == s0.cell(lx, ly, lz));
                } else {
                    assert(s1.cell(lx, ly, lz) == s0.cell(lx, ly, lz));
                    assert(s2.cell(lx, ly, lz) == s1.cell(lx, ly, lz));
                }
            }
            assert(s2.planes().contents()[x].contents()[y].contents()
                =~= s0.planes().contents()[x].contents()[y].contents());
        }
    }

    /// Moving a cell to another place and then moving it back does not
    /// restore the grid: the value comes home, but the other cell is left
    /// holding a default value instead of what it held before. Stated for
    /// two distinct coordinates; whenever the second cell did not already
    /// hold a default value, the round trip observably changes the grid.
    pub proof fn lemma_move_and_back(
        s0: Self,
        s1: Self,
        s2: Self,
        ax: int,
        ay: int,
        az: int,
        bx: int,
        by: int,
        bz: int,
    )
        where C: Default
        requires
            s0.cell_in_range(ax, ay, az),
            s0.cell_in_range(bx, by, bz),
            !(ax == bx && ay == by && az == bz),
            Self::moved(s0, s1, ax, ay, az, bx, by, bz),
            Self::moved(s1, s2, bx, by, bz, ax, ay, az),
        ensures
            s2.cell(ax, ay, az) == s0.cell(ax, ay, az),
            is_default(s2.cell(bx, by, bz)),
            !is_default(s0.cell(bx, by, bz)) ==> !Self::same_state(s0, s2),
    {
        assert(s1.cell_in_range(bx, by, bz));
        assert(s2.cell(ax, ay, az) == s1.cell(bx, by, bz));
        assert(s1.cell(bx, by, bz) == s0.cell(ax, ay, az));
        if !is_default(s0.cell(bx, by, bz)) && Self::same_state(s0, s2) {
            let cx = s0.planes().center();
            let pc = s0.planes().contents()[cx + bx].center();
            let rc = s0.planes().contents()[cx + bx].contents()[pc + by].center();
            assert(s2.planes().contents()[cx + bx].contents()[pc + by].contents()
                == s0.planes().contents()[cx + bx].contents()[pc + by].contents());
            assert(s2.cell(bx, by, bz)
                == s2.planes().contents()[cx + bx].contents()[pc + by].contents()[rc + bz]);
            assert(s0.cell(bx, by, bz)
                == s0.planes().contents()[cx + bx].contents()[pc + by].contents()[rc + bz]);
            assert(false);
        }
    }
}

impl<C> Default for Grid3<C> {
    /// An empty grid: all sizes and centers 0, no planes.
    fn default() -> (r: Self)
        ensures
            r.wf(),
            r.spec_size_x() == 0,
            r.spec_size_y() == 0,
            r.spec_size_z() == 0,
            r.spec_center_x() == 0,
            r.spec_center_y() == 0,
            r.spec_center_z() == 0,
            r.planes().contents().len() == 0,
    {
        Self {
            size_x: 0,
            size_y: 0,
            size_z: 0,
            center_x: 0,
            center_y: 0,
            center_z: 0,
            grid: DoubleSidedVec::new(),
        }
    }
}

} // verus!
