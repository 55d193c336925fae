//! A dense growable sequence addressed by a signed logical coordinate
//! measured from a movable center marker.

use vstd::prelude::*;

verus! {

/// A double sided vec: a dense sequence of `T` together with a center marker.
/// The element at physical position `center_index` has logical coordinate 0;
/// coordinates below it are negative, above it positive. Growing at either
/// end never re-bases the coordinates of the elements already stored.
///
/// The center marker is taken verbatim wherever it is supplied: a center
/// beyond the current length is accepted, and merely makes `get` return
/// `None` on every coordinate it pushes out of range.
#[derive(Debug, Clone, PartialEq, Eq, Hash)]
pub struct DoubleSidedVec<T> {
    center_index: usize,
    items: Vec<T>,
}

impl<T> DoubleSidedVec<T> {
    /// The center marker, as a mathematical integer.
    pub closed spec fn center(&self) -> int {
        self.center_index as int
    }

    /// The stored elements, in ascending logical-coordinate order.
    pub closed spec fn contents(&self) -> Seq<T> {
        self.items@
    }

    /// The least addressable logical coordinate.
    pub open spec fn lo(&self) -> int {
        -self.center()
    }

    /// One past the greatest addressable logical coordinate.
    pub open spec fn hi(&self) -> int {
        self.contents().len() - self.center()
    }

    /// Whether logical coordinate `i` is currently addressable.
    pub open spec fn in_range(&self, i: int) -> bool {
        self.lo() <= i < self.hi()
    }

    /// The element at logical coordinate `i`.
    pub open spec fn at(&self, i: int) -> T
        recommends
            self.in_range(i),
    {
        self.contents()[self.center() + i]
    }

    /// Whether the center and length are small enough for the logical
    /// bounds to be representable as `isize` values.
    pub open spec fn fits_isize(&self) -> bool {
        &&& self.center() <= isize::MAX as int
        &&& self.contents().len() <= isize::MAX as int
    }

    /// An empty double sided vec with the center at 0.
    pub fn new() -> (r: Self)
        ensures
            r.center() == 0,
            r.contents() == Seq::<T>::empty(),
    {
        Self { center_index: 0, items: Vec::new() }
    }

    /// An empty double sided vec with room reserved for `capacity` elements.
    pub fn with_capacity(capacity: usize) -> (r: Self)
        ensures
            r.center() == 0,
            r.contents() == Seq::<T>::empty(),
    {
        Self { center_index: 0, items: Vec::with_capacity(capacity) }
    }

    /// `count` copies of `element`, with the center at `count / 2`.
    pub fn from_elem(element: T, count: usize) -> (r: Self) where T: Copy
        ensures
            r.center() == count as int / 2,
            r.contents().len() == count,
            forall|j: int| 0 <= j < count ==> r.contents()[j] == element,
    {
        let mut items: Vec<T> = Vec::with_capacity(count);
        let mut n: usize = 0;
        while n < count
            invariant
                n <= count,
                items@.len() == n,
                forall|j: int| 0 <= j < n ==> items@[j] == element,
            decreases count - n,
        {
            items.push(element);
            n = n + 1;
        }
        Self { center_index: count / 2, items }
    }

    /// `count` copies of `element`, with the center taken verbatim: no
    /// relation between `center` and `count` is checked.
    pub fn from_elem_center(element: T, count: usize, center: usize) -> (r: Self) where T: Copy
        ensures
            r.center() == center,
            r.contents().len() == count,
            forall|j: int| 0 <= j < count ==> r.contents()[j] == element,
    {
        let mut items: Vec<T> = Vec::with_capacity(count);
        let mut n: usize = 0;
        while n < count
            invariant
                n <= count,
                items@.len() == n,
                forall|j: int| 0 <= j < n ==> items@[j] == element,
            decreases count - n,
        {
            items.push(element);
            n = n + 1;
        }
        Self { center_index: center, items }
    }

    /// Adopts a pre-built sequence and center verbatim, with no validation.
    pub fn from_vec(center_index: usize, items: Vec<T>) -> (r: Self)
        ensures
            r.center() == center_index,
            r.contents() == items@,
    {
        Self { center_index, items }
    }

    /// Removes every element and resets the center to 0.
    pub fn clear(&mut self)
        ensures
            final(self).center() == 0,
            final(self).contents() == Seq::<T>::empty(),
    {
        self.items.clear();
        self.center_index = 0;
    }

    /// Overwrites the center marker without touching the stored elements.
    /// This re-bases every logical coordinate; it moves no data.
    pub fn set_center(&mut self, center: usize)
        ensures
            final(self).center() == center,
            final(self).contents() == old(self).contents(),
    {
        self.center_index = center;
    }

    /// Inserts `value` at the physical front and moves the center up by one,
    /// so that the new element takes the most negative logical coordinate
    /// and every element already stored keeps its coordinate.
    pub fn push_back(&mut self, value: T)
        requires
            old(self).center() < usize::MAX,
        ensures
            final(self).center() == old(self).center() + 1,
            final(self).contents() == seq![value] + old(self).contents(),
            final(self).lo() == old(self).lo() - 1,
            final(self).hi() == old(self).hi(),
            forall|i: int| old(self).in_range(i) ==> final(self).at(i) == old(self).at(i),
            final(self).at(final(self).lo()) == value,
    {
        self.items.insert(0, value);
        self.center_index = self.center_index + 1;
    }

    /// Appends `value` at the physical back; the center is unchanged, so the
    /// new element takes the least positive coordinate not yet in use.
    pub fn push_front(&mut self, value: T)
        ensures
            final(self).center() == old(self).center(),
            final(self).contents() == old(self).contents().push(value),
            final(self).lo() == old(self).lo(),
            final(self).hi() == old(self).hi() + 1,
            forall|i: int| old(self).in_range(i) ==> final(self).at(i) == old(self).at(i),
            final(self).at(old(self).hi()) == value,
    {
        self.items.push(value);
    }

    /// The number of stored elements.
    pub fn len(&self) -> (r: usize)
        ensures
            r == self.contents().len(),
    {
        self.items.len()
    }

    /// The half-open logical coordinate range `(min, max_exclusive)`
    /// currently addressable.
    pub fn lens(&self) -> (r: (isize, isize))
        requires
            self.fits_isize(),
        ensures
            r.0 == self.lo(),
            r.1 == self.hi(),
    {
        (
            -(self.center_index as isize),
            self.items.len() as isize - self.center_index as isize,
        )
    }

    /// The same bounds as `lens`, as a half-open range object.
    pub fn range(&self) -> (r: core::ops::Range<isize>)
        requires
            self.fits_isize(),
        ensures
            r.start == self.lo(),
            r.end == self.hi(),
    {
        -(self.center_index as isize)..(self.items.len() as isize - self.center_index as isize)
    }

    /// The element at logical coordinate `index`, or `None` when `index`
    /// falls outside the addressable range. This is the checked access path:
    /// it never fails, whatever the coordinate or the center.
    pub fn get(&self, index: isize) -> (r: Option<&T>)
        ensures
            self.in_range(index as int) ==> (r matches Some(v) && *v == self.at(index as int)),
            !self.in_range(index as int) ==> r is None,
    {
        let phys: i128 = self.center_index as i128 + index as i128;
        if phys < 0 {
            None
        } else if phys >= self.items.len() as i128 {
            None
        } else {
            Some(&self.items[phys as usize])
        }
    }

    /// Mutable checked access: the element at logical coordinate `index`,
    /// or `None` when `index` falls outside the addressable range.
    pub fn get_mut(&mut self, index: isize) -> (r: Option<&mut T>)
        ensures
            old(self).in_range(index as int) ==> (r matches Some(v)
                && *v == old(self).at(index as int)
                && final(self).center() == old(self).center()
                && final(self).contents() == old(self).contents().update(
                    old(self).center() + index, *final(v))),
            !old(self).in_range(index as int) ==> r is None && *final(self) == *old(self),
    {
        let phys: i128 = self.center_index as i128 + index as i128;
        if phys < 0 {
            None
        } else if phys >= self.items.len() as i128 {
            None
        } else {
            Some(&mut self.items[phys as usize])
        }
    }

    /// Unchecked access: the caller must have established that `index` is
    /// addressable; this is the stricter path reserved for such call sites.
    pub fn index(&self, index: isize) -> (r: &T)
        requires
            self.in_range(index as int),
        ensures
            *r == self.at(index as int),
    {
        let phys: i128 = self.center_index as i128 + index as i128;
        assert(0 <= phys < self.items.len() as i128);
        &self.items[phys as usize]
    }

    /// Unchecked mutable access, under the same obligation as `index`.
    pub fn index_mut(&mut self, index: isize) -> (r: &mut T)
        requires
            old(self).in_range(index as int),
        ensures
            *r == old(self).at(index as int),
            final(self).center() == old(self).center(),
            final(self).contents() == old(self).contents().update(
                old(self).center() + index, *final(r)),
    {
        let phys: i128 = self.center_index as i128 + index as i128;
        assert(0 <= phys < self.items.len() as i128);
        &mut self.items[phys as usize]
    }

    /// A borrow of the stored elements in ascending logical-coordinate
    /// order, which is the physical storage order.
    pub fn iter(&self) -> (r: &Vec<T>)
        ensures
            r@ == self.contents(),
    {
        &self.items
    }

    /// A mutable borrow of the stored elements, in the same order as
    /// `iter`; the center marker stays as it is.
    pub fn iter_mut(&mut self) -> (r: &mut Vec<T>)
        ensures
            r@ == old(self).contents(),
            final(self).contents() == final(r)@,
            final(self).center() == old(self).center(),
    {
        &mut self.items
    }
}

/// What a `T::default()` call may return: any value meeting the contract of
/// the `Default` implementation at hand. For a concrete type whose `default`
/// has an exact contract this pins the value itself.
pub open spec fn is_default<T: Default>(value: T) -> bool {
    call_ensures(T::default, (), value)
}

/// The relation between a double sided vec and the same vec grown on the
/// negative side `k` times with copies of `value`: exactly what repeated
/// `push_back(value)` produces.
pub open spec fn grown_negative_by<T>(
    pre: DoubleSidedVec<T>,
    post: DoubleSidedVec<T>,
    value: T,
    k: nat,
) -> bool {
    &&& post.center() == pre.center() + k
    &&& post.contents() == Seq::new(k, |j: int| value) + pre.contents()
}

/// The relation between a double sided vec and the same vec grown on the
/// positive side `k` times with copies of `value`: exactly what repeated
/// `push_front(value)` produces.
pub open spec fn grown_positive_by<T>(
    pre: DoubleSidedVec<T>,
    post: DoubleSidedVec<T>,
    value: T,
    k: nat,
) -> bool {
    &&& post.center() == pre.center()
    &&& post.contents() == pre.contents() + Seq::new(k, |j: int| value)
}

/// The concatenation of a sequence of sequences, in order.
pub open spec fn concat_all<A>(rows: Seq<Seq<A>>) -> Seq<A>
    decreases rows.len(),
{
    if rows.len() == 0 {
        Seq::empty()
    } else {
        concat_all(rows.drop_last()) + rows.last()
    }
}

/// Concatenating one more row appends exactly that row's elements.
pub proof fn lemma_concat_all_step<A>(rows: Seq<Seq<A>>, x: int)
    requires
        0 <= x < rows.len(),
    ensures
        concat_all(rows.take(x + 1)) == concat_all(rows.take(x)) + rows[x],
{
    assert(rows.take(x + 1).drop_last() =~= rows.take(x));
    assert(rows.take(x + 1).last() == rows[x]);
}

/// A mutable borrow of one element of a vec, with the surrounding elements
/// pinned in place.
pub(crate) fn vec_elem_mut<T>(v: &mut Vec<T>, i: usize) -> (r: &mut T)
    requires
        i < old(v).len(),
    ensures
        *r == old(v)@[i as int],
        final(v)@ == old(v)@.update(i as int, *final(r)),
{
    &mut v[i]
}

/// Grows `row` on the negative side by `amount` slots, each holding a
/// freshly made default value.
pub(crate) fn grow_row_negative<T: Default>(row: &mut DoubleSidedVec<T>, amount: usize)
    requires
        old(row).center() + amount <= usize::MAX,
    ensures
        final(row).center() == old(row).center() + amount,
        final(row).contents().len() == old(row).contents().len() + amount,
        forall|j: int| 0 <= j < amount ==> is_default(#[trigger] final(row).contents()[j]),
        forall|j: int| amount <= j < final(row).contents().len()
            ==> final(row).contents()[j] == old(row).contents()[j - amount],
{
    let mut k: usize = 0;
    while k < amount
        invariant
            k <= amount,
            old(row).center() + amount <= usize::MAX,
            row.center() == old(row).center() + k,
            row.contents().len() == old(row).contents().len() + k,
            forall|j: int| 0 <= j < k ==> is_default(#[trigger] row.contents()[j]),
            forall|j: int| k <= j < row.contents().len()
                ==> row.contents()[j] == old(row).contents()[j - k],
        decreases amount - k,
    {
        row.push_back(T::default());
        k = k + 1;
    }
}

/// Grows `row` on the positive side by `amount` slots, each holding a
/// freshly made default value.
pub(crate) fn grow_row_positive<T: Default>(row: &mut DoubleSidedVec<T>, amount: usize)
    ensures
        final(row).center() == old(row).center(),
        final(row).contents().len() == old(row).contents().len() + amount,
        forall|j: int| 0 <= j < old(row).contents().len()
            ==> final(row).contents()[j] == old(row).contents()[j],
        forall|j: int| old(row).contents().len() <= j < final(row).contents().len()
            ==> is_default(#[trigger] final(row).contents()[j]),
{
    let mut k: usize = 0;
    while k < amount
        invariant
            k <= amount,
            row.center() == old(row).center(),
            row.contents().len() == old(row).contents().len() + k,
            forall|j: int| 0 <= j < old(row).contents().len()
                ==> row.contents()[j] == old(row).contents()[j],
            forall|j: int| old(row).contents().len() <= j < row.contents().len()
                ==> is_default(#[trigger] row.contents()[j]),
        decreases amount - k,
    {
        row.push_front(T::default());
        k = k + 1;
    }
}

/// Grows every row of `plane` on the negative side by `amount` slots,
/// each holding a freshly made default value.
pub(crate) fn grow_rows_negative<T: Default>(
    plane: &mut DoubleSidedVec<DoubleSidedVec<T>>,
    amount: usize,
)
    requires
        forall|y: int| 0 <= y < old(plane).contents().len()
            ==> (#[trigger] old(plane).contents()[y]).center() + amount <= usize::MAX,
    ensures
        final(plane).center() == old(plane).center(),
        final(plane).contents().len() == old(plane).contents().len(),
        forall|y: int| 0 <= y < old(plane).contents().len() ==> {
            &&& (#[trigger] final(plane).contents()[y]).center()
                == old(plane).contents()[y].center() + amount
            &&& final(plane).contents()[y].contents().len()
                == old(plane).contents()[y].contents().len() + amount
            &&& forall|j: int| 0 <= j < amount ==> is_default(
                #[trigger] final(plane).contents()[y].contents()[j])
            &&& forall|j: int| amount <= j < final(plane).contents()[y].contents().len()
                ==> #[trigger] final(plane).contents()[y].contents()[j]
                    == old(plane).contents()[y].contents()[j - amount]
        },
{
    let ghost orig: Seq<DoubleSidedVec<T>> = plane.contents();
    let rows_vec: &mut Vec<DoubleSidedVec<T>> = plane.iter_mut();
    let n: usize = rows_vec.len();
    let mut y: usize = 0;
    while y < n
        invariant
            y <= n,
            rows_vec@.len() == n,
            n == orig.len(),
            orig == old(plane).contents(),
            forall|i: int| 0 <= i < n
                ==> (#[trigger] orig[i]).center() + amount <= usize::MAX,
            forall|i: int| 0 <= i < y ==> {
                &&& (#[trigger] rows_vec@[i]).center() == orig[i].center() + amount
                &&& rows_vec@[i].contents().len() == orig[i].contents().len() + amount
                &&& forall|j: int| 0 <= j < amount ==> is_default(
                    #[trigger] rows_vec@[i].contents()[j])
                &&& forall|j: int| amount <= j < rows_vec@[i].contents().len()
                    ==> #[trigger] rows_vec@[i].contents()[j]
                        == orig[i].contents()[j - amount]
            },
            forall|i: int| y <= i < n ==> rows_vec@[i] == orig[i],
        decreases n - y,
    {
        proof {
            assert(orig[y as int].center() + amount <= usize::MAX);
        }
        let row: &mut DoubleSidedVec<T> = vec_elem_mut(rows_vec, y);
        grow_row_negative(row, amount);
        y = y + 1;
    }
}

/// Grows every row of `plane` on the positive side by `amount` slots,
/// each holding a freshly made default value.
pub(crate) fn grow_rows_positive<T: Default>(
    plane: &mut DoubleSidedVec<DoubleSidedVec<T>>,
    amount: usize,
)
    ensures
        final(plane).center() == old(plane).center(),
        final(plane).contents().len() == old(plane).contents().len(),
        forall|y: int| 0 <= y < old(plane).contents().len() ==> {
            &&& (#[trigger] final(plane).contents()[y]).center()
                == old(plane).contents()[y].center()
            &&& final(plane).contents()[y].contents().len()
                == old(plane).contents()[y].contents().len() + amount
            &&& forall|j: int| 0 <= j < old(plane).contents()[y].contents().len()
                ==> #[trigger] final(plane).contents()[y].contents()[j]
                    == old(plane).contents()[y].contents()[j]
            &&& forall|j: int| old(plane).contents()[y].contents().len() <= j
                < final(plane).contents()[y].contents().len()
                ==> is_default(#[trigger] final(plane).contents()[y].contents()[j])
        },
{
    let ghost orig: Seq<DoubleSidedVec<T>> = plane.contents();
    let rows_vec: &mut Vec<DoubleSidedVec<T>> = plane.iter_mut();
    let n: usize = rows_vec.len();
    let mut y: usize = 0;
    while y < n
        invariant
            y <= n,
            rows_vec@.len() == n,
            n == orig.len(),
            orig == old(plane).contents(),
            forall|i: int| 0 <= i < y ==> {
                &&& (#[trigger] rows_vec@[i]).center() == orig[i].center()
                &&& rows_vec@[i].contents().len() == orig[i].contents().len() + amount
                &&& forall|j: int| 0 <= j < orig[i].contents().len()
                    ==> #[trigger] rows_vec@[i].contents()[j] == orig[i].contents()[j]
                &&& forall|j: int| orig[i].contents().len() <= j
                    < rows_vec@[i].contents().len()
                    ==> is_default(#[trigger] rows_vec@[i].contents()[j])
            },
            forall|i: int| y <= i < n ==> rows_vec@[i] == orig[i],
        decreases n - y,
    {
        let row: &mut DoubleSidedVec<T> = vec_elem_mut(rows_vec, y);
        grow_row_positive(row, amount);
        y = y + 1;
    }
}

/// Checked and unchecked access agree: at a coordinate inside the
/// addressable range, `get` hands back a present value, and it is the very
/// element that unchecked `index` hands back at the same coordinate.
pub proof fn lemma_get_matches_index<T>(v: DoubleSidedVec<T>, i: int, got: Option<T>, picked: T)
    requires
        v.in_range(i),
        got matches Some(g) && g == v.at(i),
        picked == v.at(i),
    ensures
        got == Some(picked),
{
}

/// The measure of the half-open range returned by `range` equals the width
/// of the pair returned by `lens`, in every state: both describe the same
/// logical bounds.
pub proof fn lemma_range_matches_lens<T>(
    v: DoubleSidedVec<T>,
    range_start: int,
    range_end: int,
    lens_min: int,
    lens_max: int,
)
    requires
        range_start == v.lo(),
        range_end == v.hi(),
        lens_min == v.lo(),
        lens_max == v.hi(),
    ensures
        range_end - range_start == lens_max - lens_min,
{
}

/// Growing the negative side by `k` slots of `value` and then the positive
/// side by `k` slots of the same value widens the addressable range by `k`
/// at each end, leaves every previously stored element at its original
/// logical coordinate, and puts `value` in every new slot.
pub proof fn lemma_grow_symmetric<T>(
    s0: DoubleSidedVec<T>,
    s1: DoubleSidedVec<T>,
    s2: DoubleSidedVec<T>,
    value: T,
    k: nat,
)
    requires
        grown_negative_by(s0, s1, value, k),
        grown_positive_by(s1, s2, value, k),
    ensures
        s2.lo() == s0.lo() - k,
        s2.hi() == s0.hi() + k,
        forall|i: int| s0.in_range(i) ==> s2.in_range(i) && s2.at(i) == s0.at(i),
        forall|i: int| s0.lo() - k <= i < s0.lo() ==> s2.at(i) == value,
        forall|i: int| s0.hi() <= i < s0.hi() + k ==> s2.at(i) == value,
{
    assert forall|i: int| s0.in_range(i) implies s2.in_range(i) && s2.at(i) == s0.at(i) by {
        assert(s2.contents()[s2.center() + i] == s0.contents()[s0.center() + i]);
    }
}

impl<T> Default for DoubleSidedVec<T> {
    /// The same value as `new`: empty, with the center at 0.
    fn default() -> (r: Self)
        ensures
            r.center() == 0,
            r.contents() == Seq::<T>::empty(),
    {
        Self { center_index: 0, items: Vec::new() }
    }
}

} // verus!
