//! N dimensional rectangular array over a flat backing buffer.
//!
//! The first dimension is the fastest moving index: the flat offset of a
//! coordinate tuple `(c_0, ..., c_{n-1})` is `sum c_d * stride_d` where
//! `stride_d` is the product of the extents of all earlier dimensions.
//! Index validity and total-size overflow are checked at construction and on
//! every access; a violation reports a failure instead of returning a value.

use crate::arr2d::ArrayError;
use vstd::prelude::*;

verus! {

broadcast use vstd::array::group_array_axioms;

/// Product of the first `d` entries of `extents`.
pub open spec fn prefix_prod(extents: Seq<int>, d: int) -> int
    decreases d,
{
    if d <= 0 {
        1
    } else {
        prefix_prod(extents, d - 1) * extents[d - 1]
    }
}

/// Extents that a container can be built over: each one fits the signed
/// representation, and the total element count — the product of them all —
/// fits the addressable range.
pub open spec fn valid_extents(extents: Seq<int>) -> bool {
    &&& forall|d: int| 0 <= d < extents.len() ==> 0 <= #[trigger] extents[d] <= isize::MAX
    &&& prefix_prod(extents, extents.len() as int) <= usize::MAX
}

/// A product of non-negative factors is non-negative.
pub proof fn lemma_prefix_prod_nonneg(extents: Seq<int>, d: int)
    requires
        forall|m: int| 0 <= m < d ==> 0 <= #[trigger] extents[m],
    ensures
        0 <= prefix_prod(extents, d),
    decreases d,
{
    if d > 0 {
        lemma_prefix_prod_nonneg(extents, d - 1);
        let p = prefix_prod(extents, d - 1);
        let e = extents[d - 1];
        assert(0 <= p * e) by (nonlinear_arith)
            requires
                0 <= p,
                0 <= e,
        ;
    }
}

/// A product including a zero factor is zero.
pub proof fn lemma_prefix_prod_zero(extents: Seq<int>, z: int, d: int)
    requires
        0 <= z < d,
        extents[z] == 0,
    ensures
        prefix_prod(extents, d) == 0,
    decreases d,
{
    if z < d - 1 {
        lemma_prefix_prod_zero(extents, z, d - 1);
    }
}

/// With every factor at least one, a prefix of the product never exceeds
/// the whole product.
pub proof fn lemma_prefix_prod_monotone(extents: Seq<int>, d: int, n: int)
    requires
        0 <= d <= n <= extents.len(),
        forall|m: int| 0 <= m < n ==> 1 <= #[trigger] extents[m],
    ensures
        prefix_prod(extents, d) <= prefix_prod(extents, n),
    decreases n - d,
{
    if d < n {
        lemma_prefix_prod_monotone(extents, d + 1, n);
        lemma_prefix_prod_nonneg(extents, d);
        let p = prefix_prod(extents, d);
        let e = extents[d];
        assert(p <= p * e) by (nonlinear_arith)
            requires
                0 <= p,
                1 <= e,
        ;
    }
}

/// The part of the flat offset contributed by the first `d` coordinates of
/// `idx`, for a container with the given extents.
pub open spec fn offset_in(extents: Seq<int>, idx: Seq<int>, d: int) -> int
    decreases d,
{
    if d <= 0 {
        0
    } else {
        offset_in(extents, idx, d - 1) + idx[d - 1] * prefix_prod(extents, d - 1)
    }
}

/// The signed coordinate array as a sequence of mathematical integers.
pub open spec fn signed_view<const N_DIM: usize>(index: [isize; N_DIM]) -> Seq<int> {
    Seq::new(N_DIM as nat, |d: int| index[d] as int)
}

/// The unsigned coordinate array as a sequence of mathematical integers.
pub open spec fn unsigned_view<const N_DIM: usize>(index: [usize; N_DIM]) -> Seq<int> {
    Seq::new(N_DIM as nat, |d: int| index[d] as int)
}

/// N dimensional rectangular array of size `(size[0] x size[1] x ...)`.
#[derive(Clone)]
pub struct ArrayND<T, const N_DIM: usize> {
    data: Vec<T>,
    size: [usize; N_DIM],
}

impl<T: Copy, const N_DIM: usize> ArrayND<T, N_DIM> {
    /// The extents, as mathematical integers.
    pub closed spec fn extents(&self) -> Seq<int> {
        Seq::new(N_DIM as nat, |d: int| self.size[d] as int)
    }

    /// Extent of dimension `d`.
    pub open spec fn extent(&self, d: int) -> int {
        self.extents()[d]
    }

    /// The flat backing buffer, in storage order.
    pub closed spec fn flat(&self) -> Seq<T> {
        self.data@
    }

    /// Stride of dimension `d`: how far one step along that dimension moves
    /// within the flat buffer.  Dimension 0 is the fastest moving one.
    pub open spec fn stride(&self, d: int) -> int {
        prefix_prod(self.extents(), d)
    }

    /// Well-formedness: valid extents and a backing buffer holding exactly
    /// the product of all extents.
    pub open spec fn wf(&self) -> bool {
        &&& valid_extents(self.extents())
        &&& self.flat().len() == self.stride(N_DIM as int)
    }

    /// Are the first `d` coordinates of `idx` within their extents?
    pub open spec fn in_bounds_upto(&self, idx: Seq<int>, d: int) -> bool {
        forall|m: int| 0 <= m < d ==> 0 <= #[trigger] idx[m] < self.extent(m)
    }

    /// Is `idx` a valid coordinate tuple?
    pub open spec fn in_bounds(&self, idx: Seq<int>) -> bool {
        idx.len() == N_DIM && self.in_bounds_upto(idx, N_DIM as int)
    }

    /// The part of the flat offset contributed by the first `d` coordinates.
    pub open spec fn offset_upto(&self, idx: Seq<int>, d: int) -> int {
        offset_in(self.extents(), idx, d)
    }

    /// Row-major striding: the flat offset of coordinate tuple `idx`.
    pub open spec fn offset_of(&self, idx: Seq<int>) -> int {
        self.offset_upto(idx, N_DIM as int)
    }

    /// The element stored at coordinate tuple `idx`.
    pub open spec fn cell(&self, idx: Seq<int>) -> T {
        self.flat()[self.offset_of(idx)]
    }

    /// The offset contributed by the first `d` in-bounds coordinates stays
    /// below the stride of dimension `d`.
    pub proof fn lemma_offset_upto_range(&self, idx: Seq<int>, d: int)
        requires
            self.in_bounds_upto(idx, d),
            0 <= d,
        ensures
            0 <= self.offset_upto(idx, d) < self.stride(d),
        decreases d,
    {
        if d == 0 {
            assert(self.stride(0) == 1);
        } else {
            self.lemma_offset_upto_range(idx, d - 1);
            let low = self.offset_upto(idx, d - 1);
            let s = self.stride(d - 1);
            let x = idx[d - 1];
            let e = self.extent(d - 1);
            assert(0 <= low + x * s < s * e) by (nonlinear_arith)
                requires
                    0 <= low < s,
                    0 <= x < e,
            ;
        }
    }

    /// Every in-bounds coordinate tuple maps to an offset inside the buffer.
    pub proof fn lemma_offset_in_range(&self, idx: Seq<int>)
        requires
            self.wf(),
            self.in_bounds(idx),
        ensures
            0 <= self.offset_of(idx) < self.flat().len(),
    {
        self.lemma_offset_upto_range(idx, N_DIM as int);
    }

    /// Coordinate tuples that differ at dimension `m` (with all coordinates
    /// up to `d` in bounds) contribute different offsets.
    proof fn lemma_offset_upto_injective(&self, idx1: Seq<int>, idx2: Seq<int>, m: int, d: int)
        requires
            self.in_bounds_upto(idx1, d),
            self.in_bounds_upto(idx2, d),
            0 <= m < d,
            idx1[m] != idx2[m],
        ensures
            self.offset_upto(idx1, d) != self.offset_upto(idx2, d),
        decreases d,
    {
        let low1 = self.offset_upto(idx1, d - 1);
        let low2 = self.offset_upto(idx2, d - 1);
        let s = self.stride(d - 1);
        let a = idx1[d - 1];
        let b = idx2[d - 1];
        self.lemma_offset_upto_range(idx1, d - 1);
        self.lemma_offset_upto_range(idx2, d - 1);
        if a == b {
            self.lemma_offset_upto_injective(idx1, idx2, m, d - 1);
        } else {
            assert(low1 + a * s != low2 + b * s) by (nonlinear_arith)
                requires
                    0 <= low1 < s,
                    0 <= low2 < s,
                    a != b,
            ;
        }
    }

    /// Distinct in-bounds coordinate tuples map to distinct flat offsets, so
    /// a write through one coordinate can never alias another.
    pub proof fn lemma_offset_injective(&self, idx1: Seq<int>, idx2: Seq<int>)
        requires
            self.wf(),
            self.in_bounds(idx1),
            self.in_bounds(idx2),
            idx1 != idx2,
        ensures
            self.offset_of(idx1) != self.offset_of(idx2),
    {
        assert(!(idx1 =~= idx2));
        let m = choose|m: int| 0 <= m < N_DIM && idx1[m] != idx2[m];
        self.lemma_offset_upto_injective(idx1, idx2, m, N_DIM as int);
    }

    /// Law: a write/read round trip.  If `after` is `before` with `value`
    /// written at the in-bounds coordinate tuple `idx` — which is exactly
    /// what a successful `get_mut` ensures — then reading `idx` yields the
    /// just-written value, and every other in-bounds coordinate tuple reads
    /// as it did before the write.
    pub proof fn lemma_write_read(
        before: ArrayND<T, N_DIM>,
        after: ArrayND<T, N_DIM>,
        idx: Seq<int>,
        value: T,
        idx2: Seq<int>,
    )
        requires
            before.wf(),
            before.in_bounds(idx),
            before.in_bounds(idx2),
            after.extents() == before.extents(),
            after.flat() == before.flat().update(before.offset_of(idx), value),
        ensures
            after.cell(idx) == value,
            idx2 != idx ==> after.cell(idx2) == before.cell(idx2),
    {
        before.lemma_offset_in_range(idx);
        before.lemma_offset_in_range(idx2);
        if idx2 != idx {
            before.lemma_offset_injective(idx, idx2);
        }
    }

    /// Allocates an array of the given extents holding `initial` everywhere.
    /// Reports `InvalidSize` exactly when an extent is out of range or some
    /// prefix of the element count overflows the addressable range.
    pub fn newu(initial: T, size: [usize; N_DIM]) -> (r: Result<ArrayND<T, N_DIM>, ArrayError>)
        ensures
            match r {
                Ok(a) => {
                    &&& valid_extents(unsigned_view(size))
                    &&& a.wf()
                    &&& a.extents() == unsigned_view(size)
                    &&& forall|idx: Seq<int>| a.in_bounds(idx) ==> #[trigger] a.cell(idx) == initial
                },
                Err(e) => {
                    &&& e == ArrayError::InvalidSize
                    &&& !valid_extents(unsigned_view(size))
                },
            },
    {
        let ghost es = unsigned_view(size);
        let mut any_zero = false;
        for d in 0..N_DIM
            invariant
                es == unsigned_view(size),
                forall|m: int| 0 <= m < d ==> 0 <= #[trigger] es[m] <= isize::MAX,
                any_zero <==> exists|m: int| 0 <= m < d && #[trigger] es[m] == 0,
        {
            let s = size[d];
            if s > isize::MAX as usize {
                proof {
                    assert(es[d as int] == s as int);
                }
                return Err(ArrayError::InvalidSize);
            }
            if s == 0 {
                proof {
                    assert(es[d as int] == 0);
                }
                any_zero = true;
            }
        }
        let mut count: usize = 1;
        if any_zero {
            // A zero extent zeroes the whole element count, whatever the
            // other extents are.
            count = 0;
            proof {
                let z = choose|m: int| 0 <= m < N_DIM && #[trigger] es[m] == 0;
                lemma_prefix_prod_zero(es, z, N_DIM as int);
            }
        } else {
            for d in 0..N_DIM
                invariant
                    es == unsigned_view(size),
                    count == prefix_prod(es, d as int),
                    forall|m: int| 0 <= m < N_DIM ==> 1 <= #[trigger] es[m] <= isize::MAX,
            {
                let s = size[d];
                count = match count.checked_mul(s) {
                    Some(c) => c,
                    None => {
                        proof {
                            let m = d as int;
                            assert(es[m] == s as int);
                            assert(prefix_prod(es, d + 1) == prefix_prod(es, m) * es[m]);
                            lemma_prefix_prod_monotone(es, d + 1, N_DIM as int);
                        }
                        return Err(ArrayError::InvalidSize);
                    },
                };
            }
        }
        let mut data: Vec<T> = Vec::with_capacity(count);
        for _k in 0..count
            invariant
                data@.len() == _k,
                forall|m: int| 0 <= m < _k ==> data@[m] == initial,
        {
            data.push(initial);
        }
        let a = ArrayND { data, size };
        proof {
            assert(a.extents() =~= es);
            assert forall|idx: Seq<int>| a.in_bounds(idx) implies #[trigger] a.cell(idx)
                == initial by {
                a.lemma_offset_in_range(idx);
            }
        }
        Ok(a)
    }

    /// As `newu`, but with signed extents; a negative extent is invalid.
    pub fn new(initial: T, size: [isize; N_DIM]) -> (r: Result<ArrayND<T, N_DIM>, ArrayError>)
        ensures
            match r {
                Ok(a) => {
                    &&& valid_extents(signed_view(size))
                    &&& a.wf()
                    &&& a.extents() == signed_view(size)
                    &&& forall|idx: Seq<int>| a.in_bounds(idx) ==> #[trigger] a.cell(idx) == initial
                },
                Err(e) => {
                    &&& e == ArrayError::InvalidSize
                    &&& !valid_extents(signed_view(size))
                },
            },
    {
        let mut size_u: [usize; N_DIM] = [0; N_DIM];
        for d in 0..N_DIM
            invariant
                forall|m: int| 0 <= m < d ==> size_u@[m] as int == #[trigger] signed_view(size)[m],
                forall|m: int| 0 <= m < d ==> 0 <= #[trigger] signed_view(size)[m],
        {
            let s = size[d];
            if s < 0 {
                proof {
                    assert(signed_view(size)[d as int] == s as int);
                }
                return Err(ArrayError::InvalidSize);
            }
            size_u[d] = s as usize;
        }
        proof {
            assert(unsigned_view(size_u) =~= signed_view(size));
        }
        Self::newu(initial, size_u)
    }

    /// Current extents as unsigned values.
    pub fn size_u(&self) -> (r: [usize; N_DIM])
        ensures
            unsigned_view(r) == self.extents(),
    {
        proof {
            assert(unsigned_view(self.size) =~= self.extents());
        }
        self.size
    }

    /// Current extents as signed values.
    pub fn size_i(&self) -> (r: [isize; N_DIM])
        requires
            self.wf(),
        ensures
            signed_view(r) == self.extents(),
    {
        let mut size_i: [isize; N_DIM] = [0; N_DIM];
        for d in 0..N_DIM
            invariant
                self.wf(),
                forall|m: int| 0 <= m < d ==> size_i@[m] as int == #[trigger] self.extents()[m],
        {
            size_i[d] = self.size[d] as isize;
        }
        proof {
            assert(signed_view(size_i) =~= self.extents());
        }
        size_i
    }

    /// The flat offset of a signed coordinate tuple; `OutOfBounds` exactly
    /// when some coordinate is negative or at least its extent.
    #[verifier::rlimit(50)]
    fn calc_data_index(&self, index: &[isize; N_DIM]) -> (r: Result<usize, ArrayError>)
        requires
            self.wf(),
        ensures
            match r {
                Ok(k) => {
                    &&& self.in_bounds(signed_view(*index))
                    &&& k == self.offset_of(signed_view(*index))
                },
                Err(e) => {
                    &&& e == ArrayError::OutOfBounds
                    &&& !self.in_bounds(signed_view(*index))
                },
            },
    {
        let ghost idx = signed_view(*index);
        for d in 0..N_DIM
            invariant
                self.wf(),
                idx == signed_view(*index),
                forall|m: int| 0 <= m < d ==> 1 <= #[trigger] self.extents()[m],
        {
            if self.size[d] == 0 {
                proof {
                    assert(self.extents()[d as int] == 0);
                    assert(!self.in_bounds(idx)) by {
                        if self.in_bounds(idx) {
                            assert(0 <= idx[d as int] < self.extent(d as int));
                        }
                    }
                }
                return Err(ArrayError::OutOfBounds);
            }
        }
        let mut data_index: usize = 0;
        let mut stride: usize = 1;
        for d in 0..N_DIM
            invariant
                self.wf(),
                idx == signed_view(*index),
                forall|m: int| 0 <= m < N_DIM ==> 1 <= #[trigger] self.extents()[m],
                stride == self.stride(d as int),
                data_index == self.offset_upto(idx, d as int),
                self.in_bounds_upto(idx, d as int),
        {
            let dim_index = index[d];
            if dim_index < 0 || dim_index as usize >= self.size[d] {
                return Err(ArrayError::OutOfBounds);
            }
            proof {
                let st = self.stride(d as int);
                let low = data_index as int;
                let x = dim_index as int;
                let e = self.extent(d as int);
                assert(idx[d as int] == x);
                assert(e == self.size[d as int] as int);
                assert(self.in_bounds_upto(idx, d + 1));
                self.lemma_offset_upto_range(idx, d + 1);
                assert(self.offset_upto(idx, d + 1) == low + x * st);
                assert(self.stride(d + 1) == st * e);
                lemma_prefix_prod_monotone(self.extents(), d + 1, N_DIM as int);
                assert(self.stride(d + 1) <= usize::MAX);
                assert(low + x * st <= usize::MAX);
                assert(0 <= x * st) by (nonlinear_arith)
                    requires
                        0 <= x,
                        0 <= st,
                ;
                assert((stride as int) * ((dim_index as usize) as int) == x * st);
            }
            data_index = data_index + stride * (dim_index as usize);
            stride = stride * self.size[d];
        }
        Ok(data_index)
    }

    /// The flat offset of an unsigned coordinate tuple; `OutOfBounds`
    /// exactly when some coordinate is at least its extent.
    fn calc_data_indexu(&self, index: &[usize; N_DIM]) -> (r: Result<usize, ArrayError>)
        requires
            self.wf(),
        ensures
            match r {
                Ok(k) => {
                    &&& self.in_bounds(unsigned_view(*index))
                    &&& k == self.offset_of(unsigned_view(*index))
                },
                Err(e) => {
                    &&& e == ArrayError::OutOfBounds
                    &&& !self.in_bounds(unsigned_view(*index))
                },
            },
    {
        let ghost idx = unsigned_view(*index);
        for d in 0..N_DIM
            invariant
                self.wf(),
                idx == unsigned_view(*index),
                forall|m: int| 0 <= m < d ==> 1 <= #[trigger] self.extents()[m],
        {
            if self.size[d] == 0 {
                proof {
                    assert(self.extents()[d as int] == 0);
                    assert(!self.in_bounds(idx)) by {
                        if self.in_bounds(idx) {
                            assert(0 <= idx[d as int] < self.extent(d as int));
                        }
                    }
                }
                return Err(ArrayError::OutOfBounds);
            }
        }
        let mut data_index: usize = 0;
        let mut stride: usize = 1;
        for d in 0..N_DIM
            invariant
                self.wf(),
                idx == unsigned_view(*index),
                forall|m: int| 0 <= m < N_DIM ==> 1 <= #[trigger] self.extents()[m],
                stride == self.stride(d as int),
                data_index == self.offset_upto(idx, d as int),
                self.in_bounds_upto(idx, d as int),
        {
            let dim_index = index[d];
            if dim_index >= self.size[d] {
                return Err(ArrayError::OutOfBounds);
            }
            proof {
                assert(self.in_bounds_upto(idx, d + 1));
                self.lemma_offset_upto_range(idx, d + 1);
                assert(self.offset_upto(idx, d + 1) == data_index + (dim_index as int) * self.stride(
                    d as int,
                ));
                assert(self.stride(d + 1) == self.stride(d as int) * self.extent(d as int));
                lemma_prefix_prod_monotone(self.extents(), d + 1, N_DIM as int);
                assert(self.stride(d + 1) <= usize::MAX);
                assert((dim_index as int) * self.stride(d as int) <= self.offset_upto(idx, d + 1));
            }
            data_index = data_index + stride * dim_index;
            stride = stride * self.size[d];
        }
        Ok(data_index)
    }

    /// Bounds-checked read at a signed coordinate tuple.  Returns the stored
    /// element exactly when every coordinate is in range, and `OutOfBounds`
    /// otherwise; never a value for an out-of-range coordinate.
    pub fn get(&self, index: &[isize; N_DIM]) -> (r: Result<&T, ArrayError>)
        requires
            self.wf(),
        ensures
            match r {
                Ok(v) => {
                    &&& self.in_bounds(signed_view(*index))
                    &&& *v == self.cell(signed_view(*index))
                },
                Err(e) => {
                    &&& e == ArrayError::OutOfBounds
                    &&& !self.in_bounds(signed_view(*index))
                },
            },
    {
        let i = match self.calc_data_index(index) {
            Ok(i) => i,
            Err(e) => {
                return Err(e);
            },
        };
        proof {
            self.lemma_offset_in_range(signed_view(*index));
        }
        Ok(&self.data[i])
    }

    /// Bounds-checked read at an unsigned coordinate tuple.
    pub fn getu(&self, index: &[usize; N_DIM]) -> (r: Result<&T, ArrayError>)
        requires
            self.wf(),
        ensures
            match r {
                Ok(v) => {
                    &&& self.in_bounds(unsigned_view(*index))
                    &&& *v == self.cell(unsigned_view(*index))
                },
                Err(e) => {
                    &&& e == ArrayError::OutOfBounds
                    &&& !self.in_bounds(unsigned_view(*index))
                },
            },
    {
        let i = match self.calc_data_indexu(index) {
            Ok(i) => i,
            Err(e) => {
                return Err(e);
            },
        };
        proof {
            self.lemma_offset_in_range(unsigned_view(*index));
        }
        Ok(&self.data[i])
    }

    /// Bounds-checked write at a signed coordinate tuple: stores `value` at
    /// `index`.  On success the backing buffer changes at exactly the flat
    /// offset of `index`; out of range, it reports `OutOfBounds` and leaves
    /// the array untouched.
    pub fn get_mut(&mut self, index: &[isize; N_DIM], value: T) -> (r: Result<(), ArrayError>)
        requires
            old(self).wf(),
        ensures
            final(self).wf(),
            final(self).extents() == old(self).extents(),
            match r {
                Ok(_) => {
                    &&& old(self).in_bounds(signed_view(*index))
                    &&& final(self).flat() == old(self).flat().update(
                        old(self).offset_of(signed_view(*index)),
                        value,
                    )
                },
                Err(e) => {
                    &&& e == ArrayError::OutOfBounds
                    &&& !old(self).in_bounds(signed_view(*index))
                    &&& final(self).flat() == old(self).flat()
                },
            },
    {
        let i = match self.calc_data_index(index) {
            Ok(i) => i,
            Err(e) => {
                return Err(e);
            },
        };
        proof {
            self.lemma_offset_in_range(signed_view(*index));
        }
        self.data.set(i, value);
        Ok(())
    }

    /// Bounds-checked write at an unsigned coordinate tuple.
    pub fn get_mutu(&mut self, index: &[usize; N_DIM], value: T) -> (r: Result<(), ArrayError>)
        requires
            old(self).wf(),
        ensures
            final(self).wf(),
            final(self).extents() == old(self).extents(),
            match r {
                Ok(_) => {
                    &&& old(self).in_bounds(unsigned_view(*index))
                    &&& final(self).flat() == old(self).flat().update(
                        old(self).offset_of(unsigned_view(*index)),
                        value,
                    )
                },
                Err(e) => {
                    &&& e == ArrayError::OutOfBounds
                    &&& !old(self).in_bounds(unsigned_view(*index))
                    &&& final(self).flat() == old(self).flat()
                },
            },
    {
        let i = match self.calc_data_indexu(index) {
            Ok(i) => i,
            Err(e) => {
                return Err(e);
            },
        };
        proof {
            self.lemma_offset_in_range(unsigned_view(*index));
        }
        self.data.set(i, value);
        Ok(())
    }
}

} // verus!
