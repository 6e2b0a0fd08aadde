//! Loss-side helpers that are pure rounding arithmetic: selecting each
//! sample's score at its labelled class, and the L2 penalty of the weights.
//! The logarithm of the cross-entropy itself is left to the caller, with the
//! exponential of the softmax.

use vstd::prelude::*;

use crate::arith::{add_bits, fadd, fmul, fpowi, mul_bits};
use crate::fbits::{HALF_BITS, POS_ZERO};
use crate::layers::Layer;
use crate::matrix::{sum_acc, Matrix};

verus! {

/// For each sample row of `input`, the entry at that row's label column,
/// gathered into one row.
pub fn one_hot_encoding(input: &Matrix, labels: &Vec<usize>) -> (r: Matrix)
    requires
        input.wf(),
        labels.len() == input.height,
        forall|c: int| 0 <= c < labels.len() ==> #[trigger] labels[c] < input.width,
    ensures
        r.wf(),
        r.height == 1,
        r.width == input.height,
        !r.transposed,
        forall|c: int|
            0 <= c < input.height ==> r.data[c] == input.entry(c, #[trigger] labels[c] as int),
{
    proof {
        assert(1 * (input.height as int) == input.height as int) by (nonlinear_arith);
    }
    let mut output: Matrix = Matrix::init_zero(1, input.height);
    let mut c: usize = 0;
    while c < input.height
        invariant
            input.wf(),
            labels.len() == input.height,
            forall|j: int| 0 <= j < labels.len() ==> #[trigger] labels[j] < input.width,
            output.wf(),
            output.height == 1,
            output.width == input.height,
            !output.transposed,
            output.data.len() == input.height,
            c <= input.height,
            forall|j: int|
                0 <= j < c ==> output.data[j] == input.entry(j, #[trigger] labels[j] as int),
        decreases input.height - c,
    {
        let v: u64 = input.get(c, labels[c]);
        output.set_1d(v, c);
        c = c + 1;
    }
    output
}

/// Sum of the squares of the first `k` elements, accumulated in index order
/// from +0.0.
pub open spec fn sq_sum_acc(s: Seq<u64>, k: int) -> u64
    decreases k,
{
    if k <= 0 {
        POS_ZERO
    } else {
        fadd(sq_sum_acc(s, k - 1), fpowi(s[k - 1], 2))
    }
}

/// The L2 penalty contributed by one layer: half of `lambda` times the sum
/// of its squared weights.
pub open spec fn l2_term(l: Layer, lambda: u64) -> u64 {
    fmul(
        fmul(HALF_BITS, lambda),
        sq_sum_acc(l.weights_t.data@, l.weights_t.data@.len() as int),
    )
}

/// The L2 penalty of the first `k` layers, accumulated in order from +0.0.
pub open spec fn l2_acc(layers: Seq<Layer>, lambda: u64, k: int) -> u64
    decreases k,
{
    if k <= 0 {
        POS_ZERO
    } else {
        fadd(l2_acc(layers, lambda, k - 1), l2_term(layers[k - 1], lambda))
    }
}

/// L2 regularization over all layers: `0.5 * lambda * sum(weights^2)`,
/// summed layer by layer.
pub fn l2_reg(layers: &Vec<Layer>, lambda: u64) -> (r: u64)
    ensures
        r == l2_acc(layers@, lambda, layers.len() as int),
{
    let mut l2: u64 = POS_ZERO;
    let mut i: usize = 0;
    while i < layers.len()
        invariant
            i <= layers.len(),
            l2 == l2_acc(layers@, lambda, i as int),
        decreases layers.len() - i,
    {
        let squared: Matrix = layers[i].weights_t.pow(2);
        let s: u64 = squared.sum();
        proof {
            lemma_sq_sum(layers@[i as int].weights_t.data@, squared.data@, squared.data@.len() as int);
        }
        l2 = add_bits(l2, mul_bits(mul_bits(HALF_BITS, lambda), s));
        i = i + 1;
    }
    l2
}

/// Summing an elementwise-squared buffer is the squared sum fold of the
/// original buffer.
proof fn lemma_sq_sum(orig: Seq<u64>, squared: Seq<u64>, k: int)
    requires
        squared.len() == orig.len(),
        forall|j: int| 0 <= j < orig.len() ==> squared[j] == fpowi(orig[j], 2),
        k <= orig.len(),
    ensures
        sum_acc(squared, k) == sq_sum_acc(orig, k),
    decreases k,
{
    if k > 0 {
        lemma_sq_sum(orig, squared, k - 1);
    }
}

} // verus!
