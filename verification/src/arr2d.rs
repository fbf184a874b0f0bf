//! Two dimensional rectangular array over a flat backing buffer.
//!
//! The first dimension is the fastest moving index: element `(i, j)` lives at
//! flat offset `i + size_i * j`.  This makes it cheap to iterate along the
//! first dimension and cheap to append a whole row along the second one.
//!
//! Sizes are kept as `isize` so that callers can do signed arithmetic around
//! coordinates (probing neighbours may transiently go negative); every access
//! is bounds checked and reports a failure instead of returning a value.

use vstd::prelude::*;

verus! {

/// The ways an array operation can fail: construction with negative or
/// overflowing extents, an access outside the extents, or a row append whose
/// element count does not match the established width.
#[derive(Clone, Copy, Debug, PartialEq, Eq, Structural)]
pub enum ArrayError {
    InvalidSize,
    OutOfBounds,
    DimensionMismatch,
}

/// Two dimensional rectangular array of size `(size_i x size_j)`.
pub struct Array2d<T> {
    data: Vec<T>,
    size_i: isize,
    size_j: isize,
}

impl<T: Copy> Array2d<T> {
    /// Extent of the first (fastest moving) dimension.
    pub closed spec fn dim_i(&self) -> int {
        self.size_i as int
    }

    /// Extent of the second dimension.
    pub closed spec fn dim_j(&self) -> int {
        self.size_j as int
    }

    /// The flat backing buffer, in storage order.
    pub closed spec fn flat(&self) -> Seq<T> {
        self.data@
    }

    /// Well-formedness: non-negative extents and a backing buffer holding
    /// exactly `dim_i * dim_j` elements.
    pub open spec fn wf(&self) -> bool {
        &&& 0 <= self.dim_i()
        &&& 0 <= self.dim_j()
        &&& self.flat().len() == self.dim_i() * self.dim_j()
    }

    /// Is `(i, j)` a valid coordinate pair?
    pub open spec fn in_bounds(&self, i: int, j: int) -> bool {
        0 <= i < self.dim_i() && 0 <= j < self.dim_j()
    }

    /// Row-major striding: the flat offset of coordinate `(i, j)`.
    pub open spec fn offset_of(&self, i: int, j: int) -> int {
        i + self.dim_i() * j
    }

    /// The element stored at coordinate `(i, j)`.
    pub open spec fn cell(&self, i: int, j: int) -> T {
        self.flat()[self.offset_of(i, j)]
    }

    /// Every in-bounds coordinate maps to an offset inside the buffer.
    pub proof fn lemma_offset_in_range(&self, i: int, j: int)
        requires
            self.wf(),
            self.in_bounds(i, j),
        ensures
            0 <= self.offset_of(i, j) < self.flat().len(),
    {
        assert(i + self.dim_i() * j < self.dim_i() * self.dim_j()) by (nonlinear_arith)
            requires
                0 <= i < self.dim_i(),
                0 <= j < self.dim_j(),
        ;
        assert(0 <= i + self.dim_i() * j) by (nonlinear_arith)
            requires
                0 <= i,
                0 <= j,
                0 <= self.dim_i(),
        ;
    }

    /// Distinct in-bounds coordinates map to distinct flat offsets, so a
    /// write through one coordinate can never alias another.
    pub proof fn lemma_offset_injective(&self, i1: int, j1: int, i2: int, j2: int)
        requires
            self.wf(),
            self.in_bounds(i1, j1),
            self.in_bounds(i2, j2),
            (i1, j1) != (i2, j2),
        ensures
            self.offset_of(i1, j1) != self.offset_of(i2, j2),
    {
        if j1 == j2 {
            assert(i1 != i2);
        } else {
            assert(i1 + self.dim_i() * j1 != i2 + self.dim_i() * j2) by (nonlinear_arith)
                requires
                    0 <= i1 < self.dim_i(),
                    0 <= i2 < self.dim_i(),
                    j1 != j2,
            ;
        }
    }

    /// Allocates a `size_i x size_j` array holding `initial` everywhere.
    /// Reports `InvalidSize` exactly when an extent is negative or the
    /// element count overflows the addressable range.
    pub fn new(initial: T, size_i: isize, size_j: isize) -> (r: Result<Array2d<T>, ArrayError>)
        ensures
            match r {
                Ok(a) => {
                    &&& 0 <= size_i && 0 <= size_j
                    &&& size_i * size_j <= usize::MAX
                    &&& a.wf()
                    &&& a.dim_i() == size_i as int
                    &&& a.dim_j() == size_j as int
                    &&& forall|i: int, j: int|
                        a.in_bounds(i, j) ==> #[trigger] a.cell(i, j) == initial
                },
                Err(e) => {
                    &&& e == ArrayError::InvalidSize
                    &&& (size_i < 0 || size_j < 0 || size_i * size_j > usize::MAX)
                },
            },
    {
        if size_i < 0 || size_j < 0 {
            return Err(ArrayError::InvalidSize);
        }
        let count = match (size_i as usize).checked_mul(size_j as usize) {
            Some(c) => c,
            None => {
                return Err(ArrayError::InvalidSize);
            },
        };
        let mut data: Vec<T> = Vec::with_capacity(count);
        for _k in 0..count
            invariant
                data@.len() == _k,
                forall|m: int| 0 <= m < _k ==> data@[m] == initial,
        {
            data.push(initial);
        }
        let a = Array2d { data, size_i, size_j };
        proof {
            assert forall|i: int, j: int| a.in_bounds(i, j) implies #[trigger] a.cell(i, j)
                == initial by {
                a.lemma_offset_in_range(i, j);
            }
        }
        Ok(a)
    }

    /// As `new`, but with unsigned extents.  Reports `InvalidSize` exactly
    /// when an extent does not fit the signed representation or the element
    /// count overflows.
    pub fn newu(initial: T, size_i: usize, size_j: usize) -> (r: Result<Array2d<T>, ArrayError>)
        ensures
            match r {
                Ok(a) => {
                    &&& size_i <= isize::MAX as usize
                    &&& size_j <= isize::MAX as usize
                    &&& size_i * size_j <= usize::MAX
                    &&& a.wf()
                    &&& a.dim_i() == size_i as int
                    &&& a.dim_j() == size_j as int
                    &&& forall|i: int, j: int|
                        a.in_bounds(i, j) ==> #[trigger] a.cell(i, j) == initial
                },
                Err(e) => {
                    &&& e == ArrayError::InvalidSize
                    &&& (size_i > isize::MAX as usize || size_j > isize::MAX as usize
                        || size_i * size_j > usize::MAX)
                },
            },
    {
        if size_i > isize::MAX as usize || size_j > isize::MAX as usize {
            return Err(ArrayError::InvalidSize);
        }
        Self::new(initial, size_i as isize, size_j as isize)
    }

    /// An empty `0 x 0` array, meant to be grown with `add_row`.
    pub fn new_empty() -> (r: Array2d<T>)
        ensures
            r.wf(),
            r.dim_i() == 0,
            r.dim_j() == 0,
            r.flat() == Seq::<T>::empty(),
    {
        Array2d { data: Vec::new(), size_i: 0, size_j: 0 }
    }

    /// Current extents as unsigned values.
    pub fn size_u(&self) -> (r: (usize, usize))
        requires
            self.wf(),
        ensures
            r.0 == self.dim_i(),
            r.1 == self.dim_j(),
    {
        (self.size_i as usize, self.size_j as usize)
    }

    /// Current extents as signed values.
    pub fn size_i(&self) -> (r: (isize, isize))
        ensures
            r.0 == self.dim_i(),
            r.1 == self.dim_j(),
    {
        (self.size_i, self.size_j)
    }

    /// Bounds-checked read at a signed coordinate pair.  Returns the stored
    /// element exactly when the coordinate is in range, and `OutOfBounds`
    /// otherwise; never a value for an out-of-range coordinate.
    pub fn get(&self, index: (isize, isize)) -> (r: Result<&T, ArrayError>)
        requires
            self.wf(),
        ensures
            match r {
                Ok(v) => {
                    &&& self.in_bounds(index.0 as int, index.1 as int)
                    &&& *v == self.cell(index.0 as int, index.1 as int)
                },
                Err(e) => {
                    &&& e == ArrayError::OutOfBounds
                    &&& !self.in_bounds(index.0 as int, index.1 as int)
                },
            },
    {
        let (i, j) = index;
        if i < 0 || i >= self.size_i || j < 0 || j >= self.size_j {
            return Err(ArrayError::OutOfBounds);
        }
        let _n = self.data.len();
        proof {
            self.lemma_offset_in_range(i as int, j as int);
        }
        let offset = (i as usize) + (self.size_i as usize) * (j as usize);
        Ok(&self.data[offset])
    }

    /// Bounds-checked read at an unsigned coordinate pair.
    pub fn getu(&self, index: (usize, usize)) -> (r: Result<&T, ArrayError>)
        requires
            self.wf(),
        ensures
            match r {
                Ok(v) => {
                    &&& self.in_bounds(index.0 as int, index.1 as int)
                    &&& *v == self.cell(index.0 as int, index.1 as int)
                },
                Err(e) => {
                    &&& e == ArrayError::OutOfBounds
                    &&& !self.in_bounds(index.0 as int, index.1 as int)
                },
            },
    {
        let (i, j) = index;
        if i >= self.size_i as usize || j >= self.size_j as usize {
            return Err(ArrayError::OutOfBounds);
        }
        let _n = self.data.len();
        proof {
            self.lemma_offset_in_range(i as int, j as int);
        }
        let offset = i + (self.size_i as usize) * j;
        Ok(&self.data[offset])
    }

    /// Bounds-checked write at a signed coordinate pair: stores `value` at
    /// `index`.  On success the backing buffer changes at exactly the flat
    /// offset of `index`; out of range, it reports `OutOfBounds` and leaves
    /// the array untouched.
    pub fn get_mut(&mut self, index: (isize, isize), value: T) -> (r: Result<(), ArrayError>)
        requires
            old(self).wf(),
        ensures
            final(self).wf(),
            final(self).dim_i() == old(self).dim_i(),
            final(self).dim_j() == old(self).dim_j(),
            match r {
                Ok(_) => {
                    &&& old(self).in_bounds(index.0 as int, index.1 as int)
                    &&& final(self).flat() == old(self).flat().update(
                        old(self).offset_of(index.0 as int, index.1 as int),
                        value,
                    )
                },
                Err(e) => {
                    &&& e == ArrayError::OutOfBounds
                    &&& !old(self).in_bounds(index.0 as int, index.1 as int)
                    &&& final(self).flat() == old(self).flat()
                },
            },
    {
        let (i, j) = index;
        if i < 0 || i >= self.size_i || j < 0 || j >= self.size_j {
            return Err(ArrayError::OutOfBounds);
        }
        let _n = self.data.len();
        proof {
            self.lemma_offset_in_range(i as int, j as int);
        }
        let offset = (i as usize) + (self.size_i as usize) * (j as usize);
        self.data.set(offset, value);
        Ok(())
    }

    /// Bounds-checked write at an unsigned coordinate pair.
    pub fn get_mutu(&mut self, index: (usize, usize), value: T) -> (r: Result<(), ArrayError>)
        requires
            old(self).wf(),
        ensures
            final(self).wf(),
            final(self).dim_i() == old(self).dim_i(),
            final(self).dim_j() == old(self).dim_j(),
            match r {
                Ok(_) => {
                    &&& old(self).in_bounds(index.0 as int, index.1 as int)
                    &&& final(self).flat() == old(self).flat().update(
                        old(self).offset_of(index.0 as int, index.1 as int),
                        value,
                    )
                },
                Err(e) => {
                    &&& e == ArrayError::OutOfBounds
                    &&& !old(self).in_bounds(index.0 as int, index.1 as int)
                    &&& final(self).flat() == old(self).flat()
                },
            },
    {
        let (i, j) = index;
        if i >= self.size_i as usize || j >= self.size_j as usize {
            return Err(ArrayError::OutOfBounds);
        }
        let _n = self.data.len();
        proof {
            self.lemma_offset_in_range(i as int, j as int);
        }
        let offset = i + (self.size_i as usize) * j;
        self.data.set(offset, value);
        Ok(())
    }

    /// Appends one row along the second dimension.
    ///
    /// On a `0 x 0` array the first append defines the width as the number
    /// of values supplied; afterwards every append must supply exactly that
    /// many values or it reports `DimensionMismatch` and changes nothing.
    /// The new values land at the end of the flat buffer, in order.
    pub fn add_row(&mut self, values: &Vec<T>) -> (r: Result<(), ArrayError>)
        requires
            old(self).wf(),
        ensures
            final(self).wf(),
            match r {
                Ok(_) => {
                    &&& if old(self).dim_i() == 0 && old(self).dim_j() == 0 {
                        final(self).dim_i() == values@.len()
                    } else {
                        final(self).dim_i() == old(self).dim_i()
                            && values@.len() == old(self).dim_i()
                    }
                    &&& final(self).dim_j() == old(self).dim_j() + 1
                    &&& final(self).flat() == old(self).flat() + values@
                },
                Err(e) => {
                    &&& final(self).flat() == old(self).flat()
                    &&& final(self).dim_i() == old(self).dim_i()
                    &&& final(self).dim_j() == old(self).dim_j()
                    &&& match e {
                        ArrayError::InvalidSize => values@.len() > isize::MAX as usize
                            || old(self).dim_j() == isize::MAX,
                        ArrayError::DimensionMismatch => {
                            &&& !(old(self).dim_i() == 0 && old(self).dim_j() == 0)
                            &&& values@.len() != old(self).dim_i()
                        },
                        _ => false,
                    }
                },
            },
    {
        if values.len() > isize::MAX as usize {
            return Err(ArrayError::InvalidSize);
        }
        if self.size_j == isize::MAX {
            return Err(ArrayError::InvalidSize);
        }
        if self.size_i == 0 && self.size_j == 0 {
            self.size_i = values.len() as isize;
        } else if values.len() != self.size_i as usize {
            return Err(ArrayError::DimensionMismatch);
        }
        let ghost old_data = self.data@;
        let ghost si = self.size_i;
        let ghost sj = self.size_j;
        for k in 0..values.len()
            invariant
                self.size_i == si,
                self.size_j == sj,
                self.data@ == old_data + values@.subrange(0, k as int),
                k <= values@.len(),
        {
            self.data.push(values[k]);
        }
        proof {
            assert(values@.subrange(0, values@.len() as int) =~= values@);
            assert(self.data@ =~= old_data + values@);
            assert((si as int) * (sj as int + 1) == (si as int) * (sj as int) + si as int)
                by (nonlinear_arith);
        }
        self.size_j = self.size_j + 1;
        Ok(())
    }

    /// Removes the first `count` rows along the second dimension: the
    /// first `count * dim_i` elements leave the flat buffer and the second
    /// extent shrinks by `count`.  Reports `OutOfBounds` and changes
    /// nothing when fewer rows exist.
    pub fn drop_front(&mut self, count: isize) -> (r: Result<(), ArrayError>)
        requires
            old(self).wf(),
        ensures
            final(self).wf(),
            final(self).dim_i() == old(self).dim_i(),
            match r {
                Ok(_) => {
                    &&& 0 <= count <= old(self).dim_j()
                    &&& final(self).dim_j() == old(self).dim_j() - count
                    &&& final(self).flat() == old(self).flat().subrange(
                        count * old(self).dim_i(),
                        old(self).flat().len() as int,
                    )
                },
                Err(e) => {
                    &&& e == ArrayError::OutOfBounds
                    &&& !(0 <= count <= old(self).dim_j())
                    &&& final(self).flat() == old(self).flat()
                    &&& final(self).dim_j() == old(self).dim_j()
                },
            },
    {
        if count < 0 || count > self.size_j {
            return Err(ArrayError::OutOfBounds);
        }
        let n = self.data.len();
        proof {
            assert(0 <= (count as int) * (self.size_i as int) <= (self.size_j as int) * (
            self.size_i as int)) by (nonlinear_arith)
                requires
                    0 <= count <= self.size_j,
                    0 <= self.size_i,
            ;
            assert((self.size_i as int) * (self.size_j as int) == (self.size_j as int) * (
            self.size_i as int)) by (nonlinear_arith);
        }
        let cut = (count as usize) * (self.size_i as usize);
        let mut kept: Vec<T> = Vec::new();
        for k in cut..n
            invariant
                n == self.data@.len(),
                cut <= n,
                kept@ == self.data@.subrange(cut as int, k as int),
                self.size_i == old(self).size_i,
                self.size_j == old(self).size_j,
        {
            kept.push(self.data[k]);
        }
        proof {
            assert(kept@ =~= self.data@.subrange(cut as int, n as int));
            assert((self.size_i as int) * (self.size_j as int - count) == (self.size_i as int) * (
            self.size_j as int) - (count as int) * (self.size_i as int)) by (nonlinear_arith);
        }
        self.data = kept;
        self.size_j = self.size_j - count;
        Ok(())
    }

    /// Law: a write/read round trip.  If `after` is `before` with `value`
    /// written at the in-bounds coordinate `(i, j)` — which is exactly what
    /// a successful `get_mut` ensures — then reading `(i, j)` yields the
    /// just-written value, and every other in-bounds coordinate reads as it
    /// did before the write.
    pub proof fn lemma_write_read(
        before: Array2d<T>,
        after: Array2d<T>,
        i: int,
        j: int,
        value: T,
        i2: int,
        j2: int,
    )
        requires
            before.wf(),
            before.in_bounds(i, j),
            before.in_bounds(i2, j2),
            after.dim_i() == before.dim_i(),
            after.dim_j() == before.dim_j(),
            after.flat() == before.flat().update(before.offset_of(i, j), value),
        ensures
            after.cell(i, j) == value,
            (i2, j2) != (i, j) ==> after.cell(i2, j2) == before.cell(i2, j2),
    {
        before.lemma_offset_in_range(i, j);
        before.lemma_offset_in_range(i2, j2);
        if (i2, j2) != (i, j) {
            before.lemma_offset_injective(i, j, i2, j2);
        }
    }

    /// Law: row-major striding is a bijection between coordinates and flat
    /// offsets.  Every flat offset `k` of a non-degenerate array is the
    /// offset of exactly one coordinate pair, namely
    /// `(k % dim_i, k / dim_i)`.
    pub proof fn lemma_flat_offset(&self, k: int)
        requires
            self.wf(),
            self.dim_i() > 0,
            0 <= k < self.flat().len(),
        ensures
            self.in_bounds(k % self.dim_i(), k / self.dim_i()),
            self.offset_of(k % self.dim_i(), k / self.dim_i()) == k,
            forall|i: int, j: int|
                self.in_bounds(i, j) && #[trigger] self.offset_of(i, j) == k ==> i == k % self.dim_i()
                    && j == k / self.dim_i(),
    {
        let di = self.dim_i();
        let dj = self.dim_j();
        assert(0 <= k % di < di && k == di * (k / di) + k % di) by (nonlinear_arith)
            requires
                di > 0,
                0 <= k,
        ;
        assert(0 <= k / di < dj) by (nonlinear_arith)
            requires
                di > 0,
                0 <= dj,
                0 <= k < di * dj,
                k == di * (k / di) + k % di,
                0 <= k % di < di,
        ;
        assert forall|i: int, j: int|
            self.in_bounds(i, j) && #[trigger] self.offset_of(i, j) == k implies i == k % di && j
            == k / di by {
            if (i, j) != (k % di, k / di) {
                self.lemma_offset_injective(i, j, k % di, k / di);
            }
        }
    }
}

} // verus!
