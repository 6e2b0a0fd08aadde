//! The rectifier nonlinearity and the rounding-only parts of the row-wise
//! softmax.
//!
//! The softmax itself exponentiates: that single step is left to the caller,
//! because the exponential of the platform math library is not a portable
//! function of the bit pattern.  Everything around it — the numerical
//! stabilization that subtracts each row's maximum, and the normalization
//! that divides each row by its sum — is rounding arithmetic and comparisons
//! and is verified here.

use vstd::prelude::*;

use crate::arith::{div_bits, fdiv, fsub, sub_bits};
use crate::fbits::{bits_total_key, flt, total_key, POS_ZERO};
use crate::matrix::{seq_max_bits, sum_acc, Matrix};

verus! {

/// The entries of logical row `r` in column order.
pub open spec fn row_seq(m: Matrix, r: int) -> Seq<u64> {
    Seq::new(m.width as nat, |c: int| m.entry(r, c))
}

/// Largest entry of logical row `r` under the IEEE-754 total order.
pub open spec fn row_max(m: Matrix, r: int) -> u64 {
    seq_max_bits(row_seq(m, r))
}

/// Sum of logical row `r`, accumulated left to right starting from +0.0.
pub open spec fn row_sum(m: Matrix, r: int) -> u64 {
    sum_acc(row_seq(m, r), m.width as int)
}

/// `max(0, x)`: the rectifier.  A negative value is replaced by +0.0; any
/// other value — zeros, positives, NaN — passes through unchanged.
pub open spec fn relu_spec(x: u64) -> u64 {
    if flt(x, POS_ZERO) {
        POS_ZERO
    } else {
        x
    }
}

pub fn relu(input: u64) -> (r: u64)
    ensures
        r == relu_spec(input),
{
    if crate::fbits::bits_lt(input, POS_ZERO) {
        POS_ZERO
    } else {
        input
    }
}

/// Largest element of a non-empty vector under the IEEE-754 total order.
fn vec_max_bits(v: &Vec<u64>) -> (r: u64)
    requires
        v.len() > 0,
    ensures
        r == seq_max_bits(v@),
{
    let mut best: u64 = v[0];
    let mut i: usize = 1;
    while i < v.len()
        invariant
            1 <= i <= v.len(),
            best == seq_max_bits(v@.take(i as int)),
        decreases v.len() - i,
    {
        proof {
            assert(v@.take(i + 1).drop_last() =~= v@.take(i as int));
        }
        if bits_total_key(best) <= bits_total_key(v[i]) {
            best = v[i];
        }
        i = i + 1;
    }
    proof {
        assert(v@.take(v.len() as int) =~= v@);
    }
    best
}

/// Numerical stabilization of the softmax: subtract from every entry the
/// maximum of its row (rows taken by flat-index blocks of `width`).
pub fn softmax_shift(m: &Matrix) -> (r: Matrix)
    requires
        m.wf(),
        m.width > 0,
    ensures
        r.wf(),
        r.height == m.height,
        r.width == m.width,
        !r.transposed,
        r.data.len() == m.data.len(),
        forall|i: int|
            0 <= i < m.data.len()
                ==> r.data[i] == fsub(m.data[i], row_max(*m, i / (m.width as int))),
    {
    let mut maxs: Vec<u64> = Vec::new();
    let mut rr: usize = 0;
    while rr < m.height
        invariant
            m.wf(),
            m.width > 0,
            rr <= m.height,
            maxs.len() == rr,
            forall|j: int| 0 <= j < rr ==> maxs[j] == row_max(*m, j),
        decreases m.height - rr,
    {
        let row: Vec<u64> = m.get_row(rr);
        let mx: u64 = vec_max_bits(&row);
        proof {
            assert(row@ =~= row_seq(*m, rr as int));
        }
        maxs.push(mx);
        rr = rr + 1;
    }
    let n: usize = m.data.len();
    let mut data: Vec<u64> = Vec::new();
    let mut i: usize = 0;
    while i < n
        invariant
            m.wf(),
            m.width > 0,
            n == m.data.len(),
            maxs.len() == m.height,
            forall|j: int| 0 <= j < m.height ==> maxs[j] == row_max(*m, j),
            i <= n,
            data.len() == i,
            forall|j: int|
                0 <= j < i ==> data[j] == fsub(m.data[j], row_max(*m, j / (m.width as int))),
        decreases n - i,
    {
        proof {
            crate::matrix::Matrix::lemma_div_in_height(*m, i as int);
        }
        data.push(sub_bits(m.data[i], maxs[i / m.width]));
        i = i + 1;
    }
    Matrix { data, width: m.width, height: m.height, transposed: false }
}

/// Normalization step of the softmax: divide every entry by the sum of its
/// row (rows taken by flat-index blocks of `width`, sums accumulated left to
/// right over the logical row).
pub fn softmax_normalize(m: &mut Matrix)
    requires
        old(m).wf(),
    ensures
        final(m).wf(),
        final(m).height == old(m).height,
        final(m).width == old(m).width,
        final(m).transposed == old(m).transposed,
        final(m).data.len() == old(m).data.len(),
        forall|i: int|
            0 <= i < old(m).data.len()
                ==> final(m).data[i] == fdiv(
                    old(m).data[i],
                    row_sum(*old(m), i / (old(m).width as int)),
                ),
    {
    let mut sums: Vec<u64> = Vec::new();
    let mut rr: usize = 0;
    while rr < m.height
        invariant
            m.wf(),
            m == old(m),
            rr <= m.height,
            sums.len() == rr,
            forall|j: int| 0 <= j < rr ==> sums[j] == row_sum(*old(m), j),
        decreases m.height - rr,
    {
        let row: Vec<u64> = m.get_row(rr);
        let mut acc: u64 = POS_ZERO;
        let mut c: usize = 0;
        while c < row.len()
            invariant
                c <= row.len(),
                acc == sum_acc(row@, c as int),
            decreases row.len() - c,
        {
            acc = crate::arith::add_bits(acc, row[c]);
            c = c + 1;
        }
        proof {
            assert(row@ =~= row_seq(*old(m), rr as int));
        }
        sums.push(acc);
        rr = rr + 1;
    }
    let n: usize = m.data.len();
    let mut i: usize = 0;
    while i < n
        invariant
            old(m).wf(),
            n == old(m).data.len(),
            n == m.data.len(),
            m.height == old(m).height,
            m.width == old(m).width,
            m.transposed == old(m).transposed,
            sums.len() == m.height,
            forall|j: int| 0 <= j < m.height ==> sums[j] == row_sum(*old(m), j),
            i <= n,
            forall|j: int| i <= j < n ==> m.data[j] == old(m).data[j],
            forall|j: int|
                0 <= j < i
                    ==> m.data[j] == fdiv(old(m).data[j], row_sum(*old(m), j / (old(m).width as int))),
        decreases n - i,
    {
        proof {
            if old(m).width == 0 {
                let h = old(m).height as int;
                assert(h * 0 == 0) by (nonlinear_arith);
            }
            crate::matrix::Matrix::lemma_div_in_height(*old(m), i as int);
        }
        let v: u64 = m.data[i];
        let s: u64 = sums[i / m.width];
        m.data.set(i, div_bits(v, s));
        i = i + 1;
    }
}

} // verus!
