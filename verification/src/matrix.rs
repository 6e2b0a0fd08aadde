//! Dense two-dimensional container with an O(1) logical transpose.
//!
//! A `Matrix` owns a flat buffer of binary64 bit patterns together with its
//! dimensions and a `transposed` flag.  The flag reinterprets the row/column
//! mapping of the existing buffer without moving data: entry `(r, c)` lives
//! at flat index `r * width + c` when the matrix is untransposed and at
//! `c * height + r` when it is transposed.

use vstd::prelude::*;

use crate::arith::{add_bits, div_bits, fadd, fdiv, fmul, fpowi, fround, fsqrt, fsub, mul_bits,
    powi_bits, round_bits, sqrt_bits, sub_bits};
use crate::fbits::{feq, fle, flt, total_key, POS_ZERO, TEN_BITS};
use crate::fbits::{bits_eq, bits_le, bits_total_key};

verus! {

pub struct Matrix {
    pub data: Vec<u64>,
    pub width: usize,
    pub height: usize,
    pub transposed: bool,
}

impl Matrix {
    /// The buffer holds exactly one entry per position of the grid.
    pub open spec fn wf(self) -> bool {
        self.data.len() == self.height * self.width
    }

    /// Flat index of logical position `(r, c)` under the current orientation.
    pub open spec fn index_of(self, r: int, c: int) -> int {
        if !self.transposed {
            r * self.width + c
        } else {
            c * self.height + r
        }
    }

    /// The bit pattern stored at logical position `(r, c)`.
    pub open spec fn entry(self, r: int, c: int) -> u64 {
        self.data[self.index_of(r, c)]
    }

    /// A flat index within bounds corresponds to a logical position within
    /// bounds, and distinct positions use distinct flat indices.
    pub proof fn lemma_index_bound(self, r: int, c: int)
        by (nonlinear_arith)
        requires
            0 <= r < self.height,
            0 <= c < self.width,
        ensures
            0 <= self.index_of(r, c) < self.height * self.width,
    {
    }

    pub proof fn lemma_index_injective(self, r1: int, c1: int, r2: int, c2: int)
        by (nonlinear_arith)
        requires
            0 <= r1 < self.height,
            0 <= c1 < self.width,
            0 <= r2 < self.height,
            0 <= c2 < self.width,
            self.index_of(r1, c1) == self.index_of(r2, c2),
        ensures
            r1 == r2 && c1 == c2,
    {
    }

    /// A flat index divided by a positive width names a row within bounds.
    pub proof fn lemma_div_in_height(self, i: int)
        by (nonlinear_arith)
        requires
            self.wf(),
            self.width > 0,
            0 <= i < self.data.len(),
        ensures
            0 <= i / (self.width as int) < self.height,
    {
    }

    /// Fresh untransposed matrix filled with the bit pattern of 0.0.
    pub fn init_zero(height: usize, width: usize) -> (r: Matrix)
        requires
            height * width <= usize::MAX,
        ensures
            r.wf(),
            r.height == height,
            r.width == width,
            !r.transposed,
            forall|i: int| 0 <= i < r.data.len() ==> r.data[i] == POS_ZERO,
    {
        let n: usize = proof_mul_fits(width, height);
        let mut data: Vec<u64> = Vec::new();
        let mut i: usize = 0;
        while i < n
            invariant
                i <= n,
                data.len() == i,
                forall|j: int| 0 <= j < i ==> data[j] == POS_ZERO,
            decreases n - i,
        {
            data.push(POS_ZERO);
            i = i + 1;
        }
        Matrix { data, width, height, transposed: false }
    }

    /// Untransposed matrix over a caller-supplied flat buffer.  The buffer
    /// length must agree with the dimensions.
    pub fn init(height: usize, width: usize, data: Vec<u64>) -> (r: Matrix)
        requires
            height * width == data.len(),
        ensures
            r.wf(),
            r.height == height,
            r.width == width,
            !r.transposed,
            r.data == data,
    {
        Matrix { data, width, height, transposed: false }
    }

    pub fn get(&self, row: usize, column: usize) -> (r: u64)
        requires
            self.wf(),
            row < self.height,
            column < self.width,
        ensures
            r == self.entry(row as int, column as int),
    {
        proof {
            self.lemma_index_bound(row as int, column as int);
        }
        if !self.transposed {
            self.data[row * self.width + column]
        } else {
            self.data[column * self.height + row]
        }
    }

    /// Access to the underlying flat buffer.
    pub fn get_1d(&self, index: usize) -> (r: u64)
        requires
            index < self.data.len(),
        ensures
            r == self.data[index as int],
    {
        self.data[index]
    }

    pub fn get_row(&self, row: usize) -> (r: Vec<u64>)
        requires
            self.wf(),
            row < self.height,
        ensures
            r.len() == self.width,
            forall|c: int| 0 <= c < self.width ==> r[c] == self.entry(row as int, c),
    {
        let mut output: Vec<u64> = Vec::new();
        let mut i: usize = 0;
        while i < self.width
            invariant
                self.wf(),
                row < self.height,
                i <= self.width,
                output.len() == i,
                forall|c: int| 0 <= c < i ==> output[c] == self.entry(row as int, c),
            decreases self.width - i,
        {
            output.push(self.get(row, i));
            i = i + 1;
        }
        output
    }

    pub fn set(&mut self, value: u64, row: usize, column: usize)
        requires
            old(self).wf(),
            row < old(self).height,
            column < old(self).width,
        ensures
            final(self).wf(),
            final(self).height == old(self).height,
            final(self).width == old(self).width,
            final(self).transposed == old(self).transposed,
            final(self).data.len() == old(self).data.len(),
            final(self).entry(row as int, column as int) == value,
            forall|r: int, c: int|
                0 <= r < old(self).height && 0 <= c < old(self).width && !(r == row && c == column)
                    ==> final(self).entry(r, c) == old(self).entry(r, c),
            forall|i: int|
                0 <= i < old(self).data.len() && i != old(self).index_of(row as int, column as int)
                    ==> final(self).data[i] == old(self).data[i],
    {
        proof {
            self.lemma_index_bound(row as int, column as int);
        }
        if !self.transposed {
            self.data.set(row * self.width + column, value);
        } else {
            self.data.set(column * self.height + row, value);
        }
        proof {
            assert forall|r: int, c: int|
                0 <= r < old(self).height && 0 <= c < old(self).width && !(r == row && c == column)
                    implies final(self).entry(r, c) == old(self).entry(r, c) by {
                old(self).lemma_index_bound(r, c);
                if old(self).index_of(r, c) == old(self).index_of(row as int, column as int) {
                    old(self).lemma_index_injective(r, c, row as int, column as int);
                }
            }
        }
    }

    /// Write to the underlying flat buffer.
    pub fn set_1d(&mut self, value: u64, index: usize)
        requires
            index < old(self).data.len(),
        ensures
            final(self).height == old(self).height,
            final(self).width == old(self).width,
            final(self).transposed == old(self).transposed,
            final(self).data@ == old(self).data@.update(index as int, value),
    {
        self.data.set(index, value);
    }

    pub fn set_row(&mut self, new_row: &Vec<u64>, row: usize)
        requires
            old(self).wf(),
            row < old(self).height,
            new_row.len() >= old(self).width,
        ensures
            final(self).wf(),
            final(self).height == old(self).height,
            final(self).width == old(self).width,
            final(self).transposed == old(self).transposed,
            forall|c: int| 0 <= c < old(self).width ==> final(self).entry(row as int, c) == new_row[c],
            forall|r: int, c: int|
                0 <= r < old(self).height && 0 <= c < old(self).width && r != row
                    ==> final(self).entry(r, c) == old(self).entry(r, c),
    {
        let mut i: usize = 0;
        while i < self.width
            invariant
                self.wf(),
                self.height == old(self).height,
                self.width == old(self).width,
                self.transposed == old(self).transposed,
                row < self.height,
                new_row.len() >= self.width,
                i <= self.width,
                forall|c: int| 0 <= c < i ==> self.entry(row as int, c) == new_row[c],
                forall|r: int, c: int|
                    0 <= r < self.height && 0 <= c < self.width && r != row
                        ==> self.entry(r, c) == old(self).entry(r, c),
            decreases self.width - i,
        {
            self.set(new_row[i], row, i);
            i = i + 1;
        }
    }

    /// Flip the orientation flag and swap the dimensions; the buffer is not
    /// touched, so entry `(r, c)` of the result is entry `(c, r)` of the
    /// original.
    pub fn transpose_inplace(&mut self)
        requires
            old(self).wf(),
        ensures
            final(self).wf(),
            final(self).transposed == !old(self).transposed,
            final(self).height == old(self).width,
            final(self).width == old(self).height,
            final(self).data == old(self).data,
            forall|r: int, c: int|
                0 <= r < final(self).height && 0 <= c < final(self).width
                    ==> final(self).entry(r, c) == old(self).entry(c, r),
    {
        self.transposed = !self.transposed;
        let tmp: usize = self.width;
        self.width = self.height;
        self.height = tmp;
        proof {
            let h = old(self).height as int;
            let w = old(self).width as int;
            assert(h * w == w * h) by (nonlinear_arith);
        }
    }

    /// Logical transpose as a new value; the original is left as it is.
    pub fn t(&self) -> (r: Matrix)
        requires
            self.wf(),
        ensures
            r.wf(),
            is_transpose_of(r, *self),
            r.transposed == !self.transposed,
            r.height == self.width,
            r.width == self.height,
            r.data@ == self.data@,
            forall|i: int, j: int|
                0 <= i < r.height && 0 <= j < r.width ==> r.entry(i, j) == self.entry(j, i),
    {
        let mut output = self.clone();
        output.transpose_inplace();
        output
    }
}

/// The two matrices agree in dimensions, orientation and buffer contents —
/// what a clone preserves.
pub open spec fn matrix_like(a: Matrix, b: Matrix) -> bool {
    &&& a.height == b.height
    &&& a.width == b.width
    &&& a.transposed == b.transposed
    &&& a.data@ == b.data@
}

/// The entries of a matrix as a function of the logical position.
pub open spec fn entry_fn(m: Matrix) -> spec_fn(int, int) -> u64 {
    |r: int, c: int| m.entry(r, c)
}

/// The entries of the logical transpose of a matrix as a function of the
/// position.
pub open spec fn entry_fn_t(m: Matrix) -> spec_fn(int, int) -> u64 {
    |r: int, c: int| m.entry(c, r)
}

/// Left fold of the dot-product accumulation for entry `(r, c)` of the
/// product of two entry functions: the sum of the first `k` products, added
/// in index order starting from +0.0.
pub open spec fn dot_acc(
    f: spec_fn(int, int) -> u64,
    g: spec_fn(int, int) -> u64,
    r: int,
    c: int,
    k: nat,
) -> u64
    decreases k,
{
    if k == 0 {
        POS_ZERO
    } else {
        fadd(dot_acc(f, g, r, c, (k - 1) as nat), fmul(f(r, k - 1), g(k - 1, c)))
    }
}

/// The dot-product fold reads its operands only at the positions it sums
/// over, so operands that agree there give the same fold.
pub proof fn lemma_dot_acc_congruent(
    f1: spec_fn(int, int) -> u64,
    g1: spec_fn(int, int) -> u64,
    f2: spec_fn(int, int) -> u64,
    g2: spec_fn(int, int) -> u64,
    r: int,
    c: int,
    k: nat,
)
    requires
        forall|j: int| 0 <= j < k ==> #[trigger] f1(r, j) == f2(r, j),
        forall|j: int| 0 <= j < k ==> #[trigger] g1(j, c) == g2(j, c),
    ensures
        dot_acc(f1, g1, r, c, k) == dot_acc(f2, g2, r, c, k),
    decreases k,
{
    if k > 0 {
        lemma_dot_acc_congruent(f1, g1, f2, g2, r, c, (k - 1) as nat);
        assert(f1(r, k - 1) == f2(r, k - 1));
        assert(g1(k - 1, c) == g2(k - 1, c));
    }
}

/// `t` reinterprets the buffer of `m` with the orientation flag flipped and
/// the dimensions swapped; this is what the transpose operations produce.
pub open spec fn is_transpose_of(t: Matrix, m: Matrix) -> bool {
    &&& t.transposed == !m.transposed
    &&& t.height == m.width
    &&& t.width == m.height
    &&& t.data@ == m.data@
}

/// The logical transpose reads, at every position, the mirrored entry of the
/// original.
pub proof fn lemma_transpose_entry_fn(t: Matrix, m: Matrix)
    requires
        is_transpose_of(t, m),
    ensures
        entry_fn(t) == entry_fn_t(m),
{
    assert forall|r: int, c: int| #[trigger] t.entry(r, c) == m.entry(c, r) by {
        assert(t.index_of(r, c) == m.index_of(c, r));
    }
    assert(entry_fn(t) =~= entry_fn_t(m));
}

/// Law: transposing a matrix twice gives back the original, bit for bit —
/// the same buffer, dimensions and orientation, and hence the same entry at
/// every position.
pub proof fn lemma_transpose_involution(a: Matrix, b: Matrix, c: Matrix)
    requires
        is_transpose_of(b, a),
        is_transpose_of(c, b),
    ensures
        c.height == a.height,
        c.width == a.width,
        c.transposed == a.transposed,
        c.data@ == a.data@,
        forall|r: int, j: int| #[trigger] c.entry(r, j) == a.entry(r, j),
{
    assert forall|r: int, j: int| #[trigger] c.entry(r, j) == a.entry(r, j) by {
        assert(c.index_of(r, j) == a.index_of(r, j));
    }
}

/// In an untransposed matrix, flat index `i` holds the entry of row `i / w`
/// and column `i % w`.
pub proof fn lemma_flat_entry(m: Matrix, i: int)
    by (nonlinear_arith)
    requires
        m.wf(),
        !m.transposed,
        m.width > 0,
        0 <= i < m.data.len(),
    ensures
        0 <= i / (m.width as int) < m.height,
        0 <= i % (m.width as int) < m.width,
        m.index_of(i / (m.width as int), i % (m.width as int)) == i,
{
}

/// The flat index of `(r, c)` in an untransposed matrix decomposes back into
/// `r` and `c`.
pub proof fn lemma_entry_flat(m: Matrix, r: int, c: int)
    requires
        m.wf(),
        !m.transposed,
        0 <= r < m.height,
        0 <= c < m.width,
    ensures
        (r * m.width + c) / (m.width as int) == r,
        (r * m.width + c) % (m.width as int) == c,
        m.index_of(r, c) == r * m.width + c,
        0 <= r * m.width + c < m.data.len(),
{
    vstd::arithmetic::div_mod::lemma_fundamental_div_mod_converse(
        r * m.width + c,
        m.width as int,
        r,
        c,
    );
    m.lemma_index_bound(r, c);
}

/// Left fold of the first `k` elements of the flat buffer, starting from
/// +0.0.
pub open spec fn sum_acc(s: Seq<u64>, k: int) -> u64
    decreases k,
{
    if k <= 0 {
        POS_ZERO
    } else {
        fadd(sum_acc(s, k - 1), s[k - 1])
    }
}

/// Left fold, over the first `k` flat positions, of the elements whose flat
/// index is congruent to `j` modulo `w`, starting from +0.0.
pub open spec fn col_sum_acc(s: Seq<u64>, w: int, j: int, k: int) -> u64
    decreases k,
{
    if k <= 0 {
        POS_ZERO
    } else if (k - 1) % w == j {
        fadd(col_sum_acc(s, w, j, k - 1), s[k - 1])
    } else {
        col_sum_acc(s, w, j, k - 1)
    }
}

/// Largest element of a non-empty sequence under the IEEE-754 total order,
/// the last such element winning ties.
pub open spec fn seq_max_bits(s: Seq<u64>) -> u64
    decreases s.len(),
{
    if s.len() <= 1 {
        s[0]
    } else if total_key(seq_max_bits(s.drop_last())) <= total_key(s.last()) {
        s.last()
    } else {
        seq_max_bits(s.drop_last())
    }
}

/// Smallest element of a non-empty sequence under the IEEE-754 total order,
/// the last such element winning ties.
pub open spec fn seq_min_bits(s: Seq<u64>) -> u64
    decreases s.len(),
{
    if s.len() <= 1 {
        s[0]
    } else if total_key(seq_min_bits(s.drop_last())) >= total_key(s.last()) {
        s.last()
    } else {
        seq_min_bits(s.drop_last())
    }
}

/// The value rounded to `p` decimal digits the way the equality oracle does
/// it: multiply by 10^p, round to an integral value (ties away from zero),
/// divide by 10^p again.
pub open spec fn rounded_to(v: u64, p: i32) -> u64 {
    fdiv(fround(fmul(v, fpowi(TEN_BITS, p))), fpowi(TEN_BITS, p))
}

/// The two matrices have the same dimensions and, position by position of the
/// flat buffers, their entries rounded to `p` decimal digits are equal as
/// binary64 values.
pub open spec fn rounded_equal(a: Matrix, b: Matrix, p: i32) -> bool {
    &&& a.height == b.height
    &&& a.width == b.width
    &&& forall|i: int|
        0 <= i < a.data.len() ==> feq(rounded_to(a.data[i], p), rounded_to(b.data[i], p))
}

impl Matrix {
    /// Standard matrix product, accumulated entry by entry in index order.
    pub fn dot(&self, m: &Matrix) -> (res: Matrix)
        requires
            self.wf(),
            m.wf(),
            self.width == m.height,
            self.height * m.width <= usize::MAX,
        ensures
            res.wf(),
            res.height == self.height,
            res.width == m.width,
            !res.transposed,
            forall|r: int, c: int|
                0 <= r < self.height && 0 <= c < m.width
                    ==> res.entry(r, c) == dot_acc(entry_fn(*self), entry_fn(*m), r, c, self.width as nat),
    {
        let mut res: Matrix = Matrix::init_zero(self.height, m.width);
        let mut c: usize = 0;
        while c < m.width
            invariant
                self.wf(),
                m.wf(),
                res.wf(),
                self.width == m.height,
                res.height == self.height,
                res.width == m.width,
                !res.transposed,
                c <= m.width,
                forall|r2: int, c2: int|
                    0 <= r2 < self.height && 0 <= c2 < c
                        ==> res.entry(r2, c2) == dot_acc(entry_fn(*self), entry_fn(*m), r2, c2, self.width as nat),
            decreases m.width - c,
        {
            let mut r: usize = 0;
            while r < self.height
                invariant
                    self.wf(),
                    m.wf(),
                    res.wf(),
                    self.width == m.height,
                    res.height == self.height,
                    res.width == m.width,
                    !res.transposed,
                    c < m.width,
                    r <= self.height,
                    forall|r2: int, c2: int|
                        0 <= r2 < self.height && 0 <= c2 < c
                            ==> res.entry(r2, c2) == dot_acc(entry_fn(*self), entry_fn(*m), r2, c2, self.width as nat),
                    forall|r2: int|
                        0 <= r2 < r
                            ==> res.entry(r2, c as int) == dot_acc(
                                entry_fn(*self),
                                entry_fn(*m),
                                r2,
                                c as int,
                                self.width as nat,
                            ),
                decreases self.height - r,
            {
                let mut tmp: u64 = POS_ZERO;
                let mut a: usize = 0;
                while a < self.width
                    invariant
                        self.wf(),
                        m.wf(),
                        self.width == m.height,
                        c < m.width,
                        r < self.height,
                        a <= self.width,
                        tmp == dot_acc(entry_fn(*self), entry_fn(*m), r as int, c as int, a as nat),
                    decreases self.width - a,
                {
                    tmp = add_bits(tmp, mul_bits(self.get(r, a), m.get(a, c)));
                    a = a + 1;
                }
                res.set(tmp, r, c);
                r = r + 1;
            }
            c = c + 1;
        }
        res
    }

    /// Broadcast addition of a 1-row matrix to every row, carried out over
    /// the flat buffer in index order.
    pub fn add_1d_matrix_to_all_rows(&self, m: &Matrix) -> (res: Matrix)
        requires
            self.wf(),
            m.wf(),
            m.height == 1,
            m.width == self.width,
        ensures
            res.wf(),
            res.height == self.height,
            res.width == self.width,
            !res.transposed,
            res.data.len() == self.data.len(),
            forall|i: int|
                0 <= i < self.data.len()
                    ==> res.data[i] == fadd(self.data[i], m.entry(0, i % (self.width as int))),
    {
        let mut data: Vec<u64> = Vec::new();
        let n: usize = self.data.len();
        let mut i: usize = 0;
        while i < n
            invariant
                self.wf(),
                m.wf(),
                m.height == 1,
                m.width == self.width,
                n == self.data.len(),
                i <= n,
                data.len() == i,
                forall|j: int|
                    0 <= j < i
                        ==> data[j] == fadd(self.data[j], m.entry(0, j % (self.width as int))),
            decreases n - i,
        {
            proof {
                if self.width == 0 {
                    assert(self.height * 0 == 0) by (nonlinear_arith);
                }
                assert(0 <= (i as int) % (self.width as int) < self.width);
            }
            data.push(add_bits(self.data[i], m.get(0, i % self.width)));
            i = i + 1;
        }
        Matrix { data, width: self.width, height: self.height, transposed: false }
    }

    /// Elementwise addition over the flat buffers of two matrices of the same
    /// dimensions.
    pub fn add_two_matrices(&self, m: &Matrix) -> (res: Matrix)
        requires
            self.wf(),
            m.wf(),
            self.height == m.height,
            self.width == m.width,
        ensures
            res.wf(),
            res.height == self.height,
            res.width == self.width,
            !res.transposed,
            res.data.len() == self.data.len(),
            forall|i: int| 0 <= i < self.data.len() ==> res.data[i] == fadd(self.data[i], m.data[i]),
    {
        let mut data: Vec<u64> = Vec::new();
        let n: usize = self.data.len();
        let mut i: usize = 0;
        while i < n
            invariant
                self.wf(),
                m.wf(),
                self.height == m.height,
                self.width == m.width,
                n == self.data.len(),
                m.data.len() == n,
                i <= n,
                data.len() == i,
                forall|j: int| 0 <= j < i ==> data[j] == fadd(self.data[j], m.data[j]),
            decreases n - i,
        {
            data.push(add_bits(self.data[i], m.data[i]));
            i = i + 1;
        }
        Matrix { data, width: self.width, height: self.height, transposed: false }
    }

    /// Largest entry under the IEEE-754 total order (as `total_cmp` orders
    /// binary64 values).
    pub fn max(&self) -> (r: u64)
        requires
            self.data.len() > 0,
        ensures
            r == seq_max_bits(self.data@),
    {
        let mut best: u64 = self.data[0];
        let mut i: usize = 1;
        while i < self.data.len()
            invariant
                1 <= i <= self.data.len(),
                best == seq_max_bits(self.data@.take(i as int)),
            decreases self.data.len() - i,
        {
            proof {
                assert(self.data@.take(i + 1).drop_last() =~= self.data@.take(i as int));
            }
            if bits_total_key(best) <= bits_total_key(self.data[i]) {
                best = self.data[i];
            }
            i = i + 1;
        }
        proof {
            assert(self.data@.take(self.data.len() as int) =~= self.data@);
        }
        best
    }

    /// Smallest entry under the IEEE-754 total order.
    pub fn min(&self) -> (r: u64)
        requires
            self.data.len() > 0,
        ensures
            r == seq_min_bits(self.data@),
    {
        let mut best: u64 = self.data[0];
        let mut i: usize = 1;
        while i < self.data.len()
            invariant
                1 <= i <= self.data.len(),
                best == seq_min_bits(self.data@.take(i as int)),
            decreases self.data.len() - i,
        {
            proof {
                assert(self.data@.take(i + 1).drop_last() =~= self.data@.take(i as int));
            }
            if bits_total_key(best) >= bits_total_key(self.data[i]) {
                best = self.data[i];
            }
            i = i + 1;
        }
        proof {
            assert(self.data@.take(self.data.len() as int) =~= self.data@);
        }
        best
    }

    /// Rescale every entry to `(x - min) / (max - min)`, in place.
    pub fn normalize(&mut self)
        requires
            old(self).data.len() > 0,
        ensures
            final(self).height == old(self).height,
            final(self).width == old(self).width,
            final(self).transposed == old(self).transposed,
            final(self).data.len() == old(self).data.len(),
            forall|i: int|
                0 <= i < old(self).data.len()
                    ==> final(self).data[i] == fdiv(
                        fsub(old(self).data[i], seq_min_bits(old(self).data@)),
                        fsub(seq_max_bits(old(self).data@), seq_min_bits(old(self).data@)),
                    ),
    {
        let maxv: u64 = self.max();
        let minv: u64 = self.min();
        let range: u64 = sub_bits(maxv, minv);
        let n: usize = self.data.len();
        let mut i: usize = 0;
        while i < n
            invariant
                n == self.data.len(),
                n == old(self).data.len(),
                self.height == old(self).height,
                self.width == old(self).width,
                self.transposed == old(self).transposed,
                range == fsub(seq_max_bits(old(self).data@), seq_min_bits(old(self).data@)),
                minv == seq_min_bits(old(self).data@),
                i <= n,
                forall|j: int| i <= j < n ==> self.data[j] == old(self).data[j],
                forall|j: int|
                    0 <= j < i
                        ==> self.data[j] == fdiv(fsub(old(self).data[j], minv), range),
            decreases n - i,
        {
            let v: u64 = self.data[i];
            self.data.set(i, div_bits(sub_bits(v, minv), range));
            i = i + 1;
        }
    }

    /// Shape check followed by entrywise equality of the flat buffers, each
    /// entry first rounded to `precision` decimal digits.
    pub fn is_equal(&self, m: &Matrix, precision: i32) -> (r: bool)
        requires
            self.wf(),
            m.wf(),
        ensures
            r == rounded_equal(*self, *m, precision),
    {
        if self.width != m.width || self.height != m.height {
            return false;
        }
        let scale: u64 = powi_bits(TEN_BITS, precision);
        let n: usize = self.data.len();
        let mut i: usize = 0;
        while i < n
            invariant
                self.wf(),
                m.wf(),
                self.height == m.height,
                self.width == m.width,
                n == self.data.len(),
                m.data.len() == n,
                scale == fpowi(TEN_BITS, precision),
                i <= n,
                forall|j: int|
                    0 <= j < i
                        ==> feq(rounded_to(self.data[j], precision), rounded_to(m.data[j], precision)),
            decreases n - i,
        {
            let a: u64 = div_bits(round_bits(mul_bits(self.data[i], scale)), scale);
            let b: u64 = div_bits(round_bits(mul_bits(m.data[i], scale)), scale);
            if !bits_eq(a, b) {
                return false;
            }
            i = i + 1;
        }
        true
    }

    /// Raise every entry to the integer power `a`, in place.
    pub fn pow_inplace(&mut self, a: i32)
        ensures
            final(self).height == old(self).height,
            final(self).width == old(self).width,
            final(self).transposed == old(self).transposed,
            final(self).data.len() == old(self).data.len(),
            forall|i: int|
                0 <= i < old(self).data.len() ==> final(self).data[i] == fpowi(old(self).data[i], a),
    {
        let n: usize = self.data.len();
        let mut i: usize = 0;
        while i < n
            invariant
                n == self.data.len(),
                n == old(self).data.len(),
                self.height == old(self).height,
                self.width == old(self).width,
                self.transposed == old(self).transposed,
                i <= n,
                forall|j: int| i <= j < n ==> self.data[j] == old(self).data[j],
                forall|j: int| 0 <= j < i ==> self.data[j] == fpowi(old(self).data[j], a),
            decreases n - i,
        {
            let v: u64 = self.data[i];
            self.data.set(i, powi_bits(v, a));
            i = i + 1;
        }
    }

    pub fn pow(&self, a: i32) -> (res: Matrix)
        ensures
            res.height == self.height,
            res.width == self.width,
            res.transposed == self.transposed,
            res.data.len() == self.data.len(),
            forall|i: int| 0 <= i < self.data.len() ==> res.data[i] == fpowi(self.data[i], a),
    {
        let mut output: Matrix = self.clone();
        output.pow_inplace(a);
        output
    }

    /// Sum of all entries, accumulated over the flat buffer in index order.
    pub fn sum(&self) -> (r: u64)
        ensures
            r == sum_acc(self.data@, self.data.len() as int),
    {
        let mut acc: u64 = POS_ZERO;
        let n: usize = self.data.len();
        let mut i: usize = 0;
        while i < n
            invariant
                n == self.data.len(),
                i <= n,
                acc == sum_acc(self.data@, i as int),
            decreases n - i,
        {
            acc = add_bits(acc, self.data[i]);
            i = i + 1;
        }
        acc
    }

    /// One row holding, for each flat-index residue class modulo the width,
    /// the sum of the entries in that class, accumulated in index order.
    pub fn sum_rows(&self) -> (res: Matrix)
        requires
            self.wf(),
        ensures
            res.wf(),
            res.height == 1,
            res.width == self.width,
            !res.transposed,
            forall|j: int|
                0 <= j < self.width
                    ==> res.data[j] == col_sum_acc(
                        self.data@,
                        self.width as int,
                        j,
                        self.data.len() as int,
                    ),
    {
        let mut res: Matrix = Matrix::init_zero(1, self.width);
        let n: usize = self.data.len();
        let mut i: usize = 0;
        while i < n
            invariant
                self.wf(),
                res.wf(),
                res.height == 1,
                res.width == self.width,
                !res.transposed,
                n == self.data.len(),
                i <= n,
                forall|j: int|
                    0 <= j < self.width
                        ==> res.data[j] == col_sum_acc(self.data@, self.width as int, j, i as int),
            decreases n - i,
        {
            proof {
                if self.width == 0 {
                    assert(self.height * 0 == 0) by (nonlinear_arith);
                }
            }
            let j: usize = i % self.width;
            let v: u64 = add_bits(res.data[j], self.data[i]);
            res.data.set(j, v);
            i = i + 1;
        }
        res
    }

    /// Divide every entry by the scalar `a`, in place.  As in the rest of the
    /// engine, `a` must not encode 0.0.
    pub fn div_inplace(&mut self, a: u64)
        requires
            !feq(a, POS_ZERO),
        ensures
            final(self).height == old(self).height,
            final(self).width == old(self).width,
            final(self).transposed == old(self).transposed,
            final(self).data.len() == old(self).data.len(),
            forall|i: int|
                0 <= i < old(self).data.len() ==> final(self).data[i] == fdiv(old(self).data[i], a),
    {
        let n: usize = self.data.len();
        let mut i: usize = 0;
        while i < n
            invariant
                n == self.data.len(),
                n == old(self).data.len(),
                self.height == old(self).height,
                self.width == old(self).width,
                self.transposed == old(self).transposed,
                i <= n,
                forall|j: int| i <= j < n ==> self.data[j] == old(self).data[j],
                forall|j: int| 0 <= j < i ==> self.data[j] == fdiv(old(self).data[j], a),
            decreases n - i,
        {
            let v: u64 = self.data[i];
            self.data.set(i, div_bits(v, a));
            i = i + 1;
        }
    }

    pub fn div(&self, a: u64) -> (res: Matrix)
        requires
            !feq(a, POS_ZERO),
        ensures
            res.height == self.height,
            res.width == self.width,
            res.transposed == self.transposed,
            res.data.len() == self.data.len(),
            forall|i: int| 0 <= i < self.data.len() ==> res.data[i] == fdiv(self.data[i], a),
    {
        let mut output: Matrix = self.clone();
        output.div_inplace(a);
        output
    }

    /// Multiply every entry by the scalar `a`, in place.
    pub fn mult_inplace(&mut self, a: u64)
        ensures
            final(self).height == old(self).height,
            final(self).width == old(self).width,
            final(self).transposed == old(self).transposed,
            final(self).data.len() == old(self).data.len(),
            forall|i: int|
                0 <= i < old(self).data.len() ==> final(self).data[i] == fmul(old(self).data[i], a),
    {
        let n: usize = self.data.len();
        let mut i: usize = 0;
        while i < n
            invariant
                n == self.data.len(),
                n == old(self).data.len(),
                self.height == old(self).height,
                self.width == old(self).width,
                self.transposed == old(self).transposed,
                i <= n,
                forall|j: int| i <= j < n ==> self.data[j] == old(self).data[j],
                forall|j: int| 0 <= j < i ==> self.data[j] == fmul(old(self).data[j], a),
            decreases n - i,
        {
            let v: u64 = self.data[i];
            self.data.set(i, mul_bits(v, a));
            i = i + 1;
        }
    }

    pub fn mult(&self, a: u64) -> (res: Matrix)
        ensures
            res.height == self.height,
            res.width == self.width,
            res.transposed == self.transposed,
            res.data.len() == self.data.len(),
            forall|i: int| 0 <= i < self.data.len() ==> res.data[i] == fmul(self.data[i], a),
    {
        let mut output: Matrix = self.clone();
        output.mult_inplace(a);
        output
    }

    /// Add the scalar `a` to every entry, in place.
    pub fn add_inplace(&mut self, a: u64)
        ensures
            final(self).height == old(self).height,
            final(self).width == old(self).width,
            final(self).transposed == old(self).transposed,
            final(self).data.len() == old(self).data.len(),
            forall|i: int|
                0 <= i < old(self).data.len() ==> final(self).data[i] == fadd(old(self).data[i], a),
    {
        let n: usize = self.data.len();
        let mut i: usize = 0;
        while i < n
            invariant
                n == self.data.len(),
                n == old(self).data.len(),
                self.height == old(self).height,
                self.width == old(self).width,
                self.transposed == old(self).transposed,
                i <= n,
                forall|j: int| i <= j < n ==> self.data[j] == old(self).data[j],
                forall|j: int| 0 <= j < i ==> self.data[j] == fadd(old(self).data[j], a),
            decreases n - i,
        {
            let v: u64 = self.data[i];
            self.data.set(i, add_bits(v, a));
            i = i + 1;
        }
    }

    /// Replace every entry by its square root, in place.
    pub fn sqrt_inplace(&mut self)
        ensures
            final(self).height == old(self).height,
            final(self).width == old(self).width,
            final(self).transposed == old(self).transposed,
            final(self).data.len() == old(self).data.len(),
            forall|i: int|
                0 <= i < old(self).data.len() ==> final(self).data[i] == fsqrt(old(self).data[i]),
    {
        let n: usize = self.data.len();
        let mut i: usize = 0;
        while i < n
            invariant
                n == self.data.len(),
                n == old(self).data.len(),
                self.height == old(self).height,
                self.width == old(self).width,
                self.transposed == old(self).transposed,
                i <= n,
                forall|j: int| i <= j < n ==> self.data[j] == old(self).data[j],
                forall|j: int| 0 <= j < i ==> self.data[j] == fsqrt(old(self).data[j]),
            decreases n - i,
        {
            let v: u64 = self.data[i];
            self.data.set(i, sqrt_bits(v));
            i = i + 1;
        }
    }

    /// Elementwise addition of another matrix of the same dimensions, in
    /// place over the flat buffers.
    pub fn add_two_matrices_inplace(&mut self, m: &Matrix)
        requires
            old(self).wf(),
            m.wf(),
            old(self).height == m.height,
            old(self).width == m.width,
        ensures
            final(self).wf(),
            final(self).height == old(self).height,
            final(self).width == old(self).width,
            final(self).transposed == old(self).transposed,
            final(self).data.len() == old(self).data.len(),
            forall|i: int|
                0 <= i < old(self).data.len()
                    ==> final(self).data[i] == fadd(old(self).data[i], m.data[i]),
    {
        let n: usize = self.data.len();
        let mut i: usize = 0;
        while i < n
            invariant
                n == self.data.len(),
                n == old(self).data.len(),
                m.data.len() == n,
                self.height == old(self).height,
                self.width == old(self).width,
                self.transposed == old(self).transposed,
                i <= n,
                forall|j: int| i <= j < n ==> self.data[j] == old(self).data[j],
                forall|j: int| 0 <= j < i ==> self.data[j] == fadd(old(self).data[j], m.data[j]),
            decreases n - i,
        {
            let v: u64 = self.data[i];
            self.data.set(i, add_bits(v, m.data[i]));
            i = i + 1;
        }
    }

    /// Elementwise division by another matrix of the same dimensions, in
    /// place over the flat buffers.
    pub fn div_two_matrices_inplace(&mut self, m: &Matrix)
        requires
            old(self).wf(),
            m.wf(),
            old(self).height == m.height,
            old(self).width == m.width,
        ensures
            final(self).wf(),
            final(self).height == old(self).height,
            final(self).width == old(self).width,
            final(self).transposed == old(self).transposed,
            final(self).data.len() == old(self).data.len(),
            forall|i: int|
                0 <= i < old(self).data.len()
                    ==> final(self).data[i] == fdiv(old(self).data[i], m.data[i]),
    {
        let n: usize = self.data.len();
        let mut i: usize = 0;
        while i < n
            invariant
                n == self.data.len(),
                n == old(self).data.len(),
                m.data.len() == n,
                self.height == old(self).height,
                self.width == old(self).width,
                self.transposed == old(self).transposed,
                i <= n,
                forall|j: int| i <= j < n ==> self.data[j] == old(self).data[j],
                forall|j: int| 0 <= j < i ==> self.data[j] == fdiv(old(self).data[j], m.data[j]),
            decreases n - i,
        {
            let v: u64 = self.data[i];
            self.data.set(i, div_bits(v, m.data[i]));
            i = i + 1;
        }
    }

    /// Remove the last row of an untransposed matrix.
    pub fn pop_last_row(&mut self)
        requires
            old(self).wf(),
            !old(self).transposed,
            old(self).height >= 1,
        ensures
            final(self).wf(),
            !final(self).transposed,
            final(self).height == old(self).height - 1,
            final(self).width == old(self).width,
            final(self).data@ == old(self).data@.take(
                (old(self).height - 1) * old(self).width,
            ),
    {
        proof {
            let h = old(self).height as int;
            let w = old(self).width as int;
            assert((h - 1) * w == h * w - w) by (nonlinear_arith);
        }
        let target: usize = self.data.len() - self.width;
        while self.data.len() > target
            invariant
                target <= self.data.len(),
                self.data.len() <= old(self).data.len(),
                self.height == old(self).height,
                self.width == old(self).width,
                self.transposed == old(self).transposed,
                self.data@ == old(self).data@.take(self.data.len() as int),
            decreases self.data.len() - target,
        {
            proof {
                assert(old(self).data@.take(self.data.len() as int).drop_last() =~= old(
                    self,
                ).data@.take(self.data.len() - 1));
            }
            self.data.pop();
        }
        self.height = self.height - 1;
    }

    /// Zero every entry whose counterpart in `z_minus_1` (position by
    /// position of the flat buffers) encodes a value `<= 0.0`; this is the
    /// backward rule of the rectifier.
    pub fn compute_d_relu_inplace(&mut self, z_minus_1: &Matrix)
        requires
            z_minus_1.data.len() >= old(self).data.len(),
        ensures
            final(self).height == old(self).height,
            final(self).width == old(self).width,
            final(self).transposed == old(self).transposed,
            final(self).data.len() == old(self).data.len(),
            forall|i: int|
                0 <= i < old(self).data.len()
                    ==> final(self).data[i] == if fle(z_minus_1.data[i], POS_ZERO) {
                        POS_ZERO
                    } else {
                        old(self).data[i]
                    },
    {
        let n: usize = self.data.len();
        let mut i: usize = 0;
        while i < n
            invariant
                n == self.data.len(),
                n == old(self).data.len(),
                z_minus_1.data.len() >= n,
                self.height == old(self).height,
                self.width == old(self).width,
                self.transposed == old(self).transposed,
                i <= n,
                forall|j: int| i <= j < n ==> self.data[j] == old(self).data[j],
                forall|j: int|
                    0 <= j < i
                        ==> self.data[j] == if fle(z_minus_1.data[j], POS_ZERO) {
                            POS_ZERO
                        } else {
                            old(self).data[j]
                        },
            decreases n - i,
        {
            if bits_le(z_minus_1.data[i], POS_ZERO) {
                self.data.set(i, POS_ZERO);
            }
            i = i + 1;
        }
    }
}

impl Clone for Matrix {
    fn clone(&self) -> (r: Matrix)
        ensures
            r.height == self.height,
            r.width == self.width,
            r.transposed == self.transposed,
            r.data@ == self.data@,
    {
        let data = self.data.clone();
        proof {
            assert(data@ =~= self.data@);
        }
        Matrix { data, width: self.width, height: self.height, transposed: self.transposed }
    }
}

/// The product of two dimensions that bound an existing allocation fits in
/// `usize`.
fn proof_mul_fits(width: usize, height: usize) -> (r: usize)
    requires
        height * width <= usize::MAX,
    ensures
        r == height * width,
{
    proof {
        assert(width * height == height * width) by (nonlinear_arith);
    }
    width * height
}

} // verus!
