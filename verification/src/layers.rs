//! One affine layer: a weight matrix stored pre-transposed, a bias row, an
//! optional rectifier, the cached forward activation, and the moment buffers
//! used by the Adam update rule.
//!
//! The weight matrix is held already transposed (input size × layer size), a
//! named invariant of the engine: the forward multiplication then needs no
//! run-time transpose.

use vstd::prelude::*;

use crate::activation::{relu, relu_spec};
use crate::arith::{fadd, fdiv, fmul, fpowi, fsqrt, fsub, mul_bits, powi_bits, sub_bits};
use crate::fbits::{feq, fle, NEG_ONE_BITS, ONE_BITS, POS_ZERO};
use crate::matrix::{dot_acc, entry_fn, entry_fn_t, is_transpose_of, lemma_entry_flat,
    lemma_flat_entry, lemma_transpose_entry_fn, matrix_like, Matrix};
use crate::optimizer::Optimizer;

verus! {

/// Bit pattern of 1e-7, the denominator guard of the Adam update.
pub const EPSILON_BITS: u64 = 0x3e7a_d7f2_9abc_af48;

pub struct Layer {
    pub weights_t: Matrix,
    pub biases: Matrix,
    pub activation: bool,
    pub output: Matrix,
    pub first_moment_weight: Option<Matrix>,
    pub first_moment_biase: Option<Matrix>,
    pub second_moment_weight: Option<Matrix>,
    pub second_moment_biase: Option<Matrix>,
}

/// Entry `i` of an optional moment buffer; a buffer not yet allocated reads
/// as zeros.
pub open spec fn moment_entry(m: Option<Matrix>, i: int) -> u64 {
    match m {
        Some(b) => b.data[i],
        None => POS_ZERO,
    }
}

/// Orientation flag of an optional moment buffer; a fresh buffer is
/// untransposed.
pub open spec fn moment_flag(m: Option<Matrix>) -> bool {
    match m {
        Some(b) => b.transposed,
        None => false,
    }
}

/// An optional moment buffer is usable with a parameter tensor of the given
/// dimensions.
pub open spec fn moment_compat(m: Option<Matrix>, h: int, w: int) -> bool {
    match m {
        Some(b) => b.wf() && b.height == h && b.width == w,
        None => true,
    }
}

/// The scalar every gradient is multiplied by before it is added to a
/// parameter: the learning step negated.
pub open spec fn neg_step(ls: u64) -> u64 {
    fmul(ls, NEG_ONE_BITS)
}

/// Plain gradient-descent step on one parameter.
pub open spec fn sgd_next(param: u64, g: u64, ls: u64) -> u64 {
    fadd(param, fmul(g, neg_step(ls)))
}

/// Exponential moving average of the gradient (first moment).
pub open spec fn m1_next(pre: Option<Matrix>, g: u64, beta1: u64, i: int) -> u64 {
    fadd(fmul(moment_entry(pre, i), beta1), fmul(g, fsub(ONE_BITS, beta1)))
}

/// Exponential moving average of the squared gradient (second moment).
pub open spec fn m2_next(pre: Option<Matrix>, g: u64, beta2: u64, i: int) -> u64 {
    fadd(fmul(moment_entry(pre, i), beta2), fmul(fpowi(g, 2), fsub(ONE_BITS, beta2)))
}

/// Bias correction: divide a moment by `1 - beta^iteration`.
pub open spec fn corrected(v: u64, beta: u64, iteration: i32) -> u64 {
    fdiv(v, fsub(ONE_BITS, fpowi(beta, iteration)))
}

/// Adam step on one parameter, from the two corrected moments.
pub open spec fn adam_next(param: u64, m1c: u64, m2c: u64, ls: u64) -> u64 {
    fadd(param, fmul(fdiv(m1c, fadd(fsqrt(m2c), EPSILON_BITS)), neg_step(ls)))
}

/// The bias-correction denominators of the Adam rule do not encode zero at
/// this iteration (the engine treats a zero divisor as a fatal misuse).
pub open spec fn adam_ok(opt: Optimizer, iteration: i32) -> bool {
    match opt {
        Optimizer::SGD { .. } => true,
        Optimizer::Adam { learning_step, beta1, beta2 } => {
            &&& !feq(fsub(ONE_BITS, fpowi(beta1, iteration)), POS_ZERO)
            &&& !feq(fsub(ONE_BITS, fpowi(beta2, iteration)), POS_ZERO)
        }
    }
}

/// The optional moment buffer `post`, after one update with gradient entries
/// `g`, holds exactly the moving average of `pre` and `g` (squared when
/// `square` is set), with the dimensions of the parameter tensor.
pub open spec fn moment_updated(
    post: Option<Matrix>,
    pre: Option<Matrix>,
    g: spec_fn(int) -> u64,
    beta: u64,
    n: int,
    h: int,
    w: int,
    square: bool,
) -> bool {
    match post {
        Some(b) => {
            &&& b.height == h
            &&& b.width == w
            &&& b.data.len() == n
            &&& b.transposed == moment_flag(pre)
            &&& forall|i: int|
                0 <= i < n ==> b.data[i] == if square {
                    m2_next(pre, g(i), beta, i)
                } else {
                    m1_next(pre, g(i), beta, i)
                }
        },
        None => false,
    }
}

/// One optimizer step on the weight tensor (and, for Adam, on its moment
/// buffers), with gradient entries `g` over the flat buffer.
pub open spec fn weights_step(
    pre: Layer,
    post: Layer,
    g: spec_fn(int) -> u64,
    opt: Optimizer,
    iteration: i32,
) -> bool {
    let n = pre.weights_t.data.len() as int;
    let h = pre.weights_t.height as int;
    let w = pre.weights_t.width as int;
    &&& post.weights_t.height == h
    &&& post.weights_t.width == w
    &&& !post.weights_t.transposed
    &&& post.weights_t.data.len() == n
    &&& match opt {
        Optimizer::SGD { learning_step } => {
            &&& forall|i: int|
                0 <= i < n
                    ==> post.weights_t.data[i] == sgd_next(
                        pre.weights_t.data[i],
                        g(i),
                        learning_step,
                    )
            &&& post.first_moment_weight == pre.first_moment_weight
            &&& post.second_moment_weight == pre.second_moment_weight
        },
        Optimizer::Adam { learning_step, beta1, beta2 } => {
            &&& moment_updated(post.first_moment_weight, pre.first_moment_weight, g, beta1, n, h, w, false)
            &&& moment_updated(post.second_moment_weight, pre.second_moment_weight, g, beta2, n, h, w, true)
            &&& forall|i: int|
                0 <= i < n
                    ==> post.weights_t.data[i] == adam_next(
                        pre.weights_t.data[i],
                        corrected(m1_next(pre.first_moment_weight, g(i), beta1, i), beta1, iteration),
                        corrected(m2_next(pre.second_moment_weight, g(i), beta2, i), beta2, iteration),
                        learning_step,
                    )
        },
    }
}

/// One optimizer step on the bias tensor (and, for Adam, on its moment
/// buffers), with gradient entries `g` over the flat buffer.
pub open spec fn biases_step(
    pre: Layer,
    post: Layer,
    g: spec_fn(int) -> u64,
    opt: Optimizer,
    iteration: i32,
) -> bool {
    let n = pre.biases.data.len() as int;
    let h = pre.biases.height as int;
    let w = pre.biases.width as int;
    &&& post.biases.height == h
    &&& post.biases.width == w
    &&& !post.biases.transposed
    &&& post.biases.data.len() == n
    &&& match opt {
        Optimizer::SGD { learning_step } => {
            &&& forall|i: int|
                0 <= i < n
                    ==> post.biases.data[i] == sgd_next(pre.biases.data[i], g(i), learning_step)
            &&& post.first_moment_biase == pre.first_moment_biase
            &&& post.second_moment_biase == pre.second_moment_biase
        },
        Optimizer::Adam { learning_step, beta1, beta2 } => {
            &&& moment_updated(post.first_moment_biase, pre.first_moment_biase, g, beta1, n, h, w, false)
            &&& moment_updated(post.second_moment_biase, pre.second_moment_biase, g, beta2, n, h, w, true)
            &&& forall|i: int|
                0 <= i < n
                    ==> post.biases.data[i] == adam_next(
                        pre.biases.data[i],
                        corrected(m1_next(pre.first_moment_biase, g(i), beta1, i), beta1, iteration),
                        corrected(m2_next(pre.second_moment_biase, g(i), beta2, i), beta2, iteration),
                        learning_step,
                    )
        },
    }
}

/// Entry `(r, c)` of the forward pass of a layer on `input`: the affine
/// transform, then the rectifier when the layer has one.
pub open spec fn forward_entry(l: Layer, input: Matrix, r: int, c: int) -> u64 {
    let z = fadd(
        dot_acc(entry_fn(input), entry_fn(l.weights_t), r, c, input.width as nat),
        l.biases.entry(0, c),
    );
    if l.activation {
        relu_spec(z)
    } else {
        z
    }
}

/// Flat entry `i` of the weight gradient: the matching entry of
/// `transpose(z_minus_1) · d_z`, plus `lambda` times the weight itself (the
/// L2 term enters the gradient directly).
pub open spec fn dw_entry(l: Layer, d_z: Matrix, z_minus_1: Matrix, lambda: u64, i: int) -> u64 {
    let w = l.weights_t.width as int;
    fadd(
        dot_acc(entry_fn_t(z_minus_1), entry_fn(d_z), i / w, i % w, d_z.height as nat),
        fmul(l.weights_t.data[i], lambda),
    )
}

/// Flat entry `j` of the bias gradient: the sum of column `j` of `d_z`.
pub open spec fn db_entry(d_z: Matrix, j: int) -> u64 {
    crate::matrix::col_sum_acc(d_z.data@, d_z.width as int, j, d_z.data.len() as int)
}

/// Entry `(r, c)` of the gradient handed upstream: `d_z` times the transpose
/// of the stored weights, masked by the rectifier rule of the preceding
/// layer when that layer applied one.
pub open spec fn new_dz_entry(
    l: Layer,
    d_z: Matrix,
    z_minus_1: Matrix,
    previous_layer_activation: bool,
    is_input_layer: bool,
    r: int,
    c: int,
) -> u64 {
    let base = dot_acc(entry_fn(d_z), entry_fn_t(l.weights_t), r, c, d_z.width as nat);
    if !is_input_layer && previous_layer_activation && fle(
        z_minus_1.data[r * (l.weights_t.height as int) + c],
        POS_ZERO,
    ) {
        POS_ZERO
    } else {
        base
    }
}

/// A capture buffer grew by exactly the given matrix.
pub open spec fn captured(post: Option<Vec<Matrix>>, pre: Option<Vec<Matrix>>, m: Matrix) -> bool {
    match post {
        Some(v) => {
            &&& v.len() == opt_vec_len(pre) + 1
            &&& v@.take(v.len() - 1) == opt_vec_seq(pre)
            &&& matrix_like(v@[v.len() - 1], m)
        },
        None => false,
    }
}

/// A capture buffer grew by one untransposed matrix of the given dimensions
/// whose flat entries are `g`.
pub open spec fn captured_entries(
    post: Option<Vec<Matrix>>,
    pre: Option<Vec<Matrix>>,
    h: int,
    w: int,
    n: int,
    g: spec_fn(int) -> u64,
) -> bool {
    match post {
        Some(v) => {
            &&& v.len() == opt_vec_len(pre) + 1
            &&& v@.take(v.len() - 1) == opt_vec_seq(pre)
            &&& v@[v.len() - 1].height == h
            &&& v@[v.len() - 1].width == w
            &&& !v@[v.len() - 1].transposed
            &&& v@[v.len() - 1].data.len() == n
            &&& forall|i: int| 0 <= i < n ==> v@[v.len() - 1].data[i] == #[trigger] g(i)
        },
        None => false,
    }
}

/// The step predicates depend on the gradient entries only within the
/// parameter tensor, so pointwise-equal gradients give the same step.
pub proof fn lemma_weights_step_congruent(
    pre: Layer,
    post: Layer,
    g1: spec_fn(int) -> u64,
    g2: spec_fn(int) -> u64,
    opt: Optimizer,
    iteration: i32,
)
    requires
        weights_step(pre, post, g1, opt, iteration),
        forall|i: int| 0 <= i < pre.weights_t.data.len() ==> #[trigger] g1(i) == g2(i),
    ensures
        weights_step(pre, post, g2, opt, iteration),
{
    let n = pre.weights_t.data.len() as int;
    match opt {
        Optimizer::SGD { learning_step } => {
            assert forall|i: int| 0 <= i < n implies post.weights_t.data[i] == sgd_next(
                pre.weights_t.data[i],
                g2(i),
                learning_step,
            ) by {
                assert(g1(i) == g2(i));
            }
        },
        Optimizer::Adam { learning_step, beta1, beta2 } => {
            assert forall|i: int| 0 <= i < n implies post.weights_t.data[i] == adam_next(
                pre.weights_t.data[i],
                corrected(m1_next(pre.first_moment_weight, g2(i), beta1, i), beta1, iteration),
                corrected(m2_next(pre.second_moment_weight, g2(i), beta2, i), beta2, iteration),
                learning_step,
            ) by {
                assert(g1(i) == g2(i));
            }
            match post.first_moment_weight {
                Some(b) => {
                    assert forall|i: int| 0 <= i < n implies b.data[i] == m1_next(
                        pre.first_moment_weight,
                        g2(i),
                        beta1,
                        i,
                    ) by {
                        assert(g1(i) == g2(i));
                    }
                },
                None => {},
            }
            match post.second_moment_weight {
                Some(b) => {
                    assert forall|i: int| 0 <= i < n implies b.data[i] == m2_next(
                        pre.second_moment_weight,
                        g2(i),
                        beta2,
                        i,
                    ) by {
                        assert(g1(i) == g2(i));
                    }
                },
                None => {},
            }
        },
    }
}

pub proof fn lemma_biases_step_congruent(
    pre: Layer,
    post: Layer,
    g1: spec_fn(int) -> u64,
    g2: spec_fn(int) -> u64,
    opt: Optimizer,
    iteration: i32,
)
    requires
        biases_step(pre, post, g1, opt, iteration),
        forall|i: int| 0 <= i < pre.biases.data.len() ==> #[trigger] g1(i) == g2(i),
    ensures
        biases_step(pre, post, g2, opt, iteration),
{
    let n = pre.biases.data.len() as int;
    match opt {
        Optimizer::SGD { learning_step } => {
            assert forall|i: int| 0 <= i < n implies post.biases.data[i] == sgd_next(
                pre.biases.data[i],
                g2(i),
                learning_step,
            ) by {
                assert(g1(i) == g2(i));
            }
        },
        Optimizer::Adam { learning_step, beta1, beta2 } => {
            assert forall|i: int| 0 <= i < n implies post.biases.data[i] == adam_next(
                pre.biases.data[i],
                corrected(m1_next(pre.first_moment_biase, g2(i), beta1, i), beta1, iteration),
                corrected(m2_next(pre.second_moment_biase, g2(i), beta2, i), beta2, iteration),
                learning_step,
            ) by {
                assert(g1(i) == g2(i));
            }
            match post.first_moment_biase {
                Some(b) => {
                    assert forall|i: int| 0 <= i < n implies b.data[i] == m1_next(
                        pre.first_moment_biase,
                        g2(i),
                        beta1,
                        i,
                    ) by {
                        assert(g1(i) == g2(i));
                    }
                },
                None => {},
            }
            match post.second_moment_biase {
                Some(b) => {
                    assert forall|i: int| 0 <= i < n implies b.data[i] == m2_next(
                        pre.second_moment_biase,
                        g2(i),
                        beta2,
                        i,
                    ) by {
                        assert(g1(i) == g2(i));
                    }
                },
                None => {},
            }
        },
    }
}

/// Number of matrices in an optional capture buffer.
pub open spec fn opt_vec_len(v: Option<Vec<Matrix>>) -> int {
    match v {
        Some(v) => v.len() as int,
        None => 0,
    }
}

/// The matrices of an optional capture buffer.
pub open spec fn opt_vec_seq(v: Option<Vec<Matrix>>) -> Seq<Matrix> {
    match v {
        Some(v) => v@,
        None => Seq::empty(),
    }
}

impl Layer {
    /// The bias row is one row wide and as long as the layer is wide.
    pub open spec fn wf(self) -> bool {
        &&& self.weights_t.wf()
        &&& self.biases.wf()
        &&& self.biases.height == 1
        &&& self.biases.width == self.weights_t.width
    }

    pub fn init_with_data(weights_t: Matrix, biases: Matrix, activation: bool) -> (r: Layer)
        ensures
            r.weights_t == weights_t,
            r.biases == biases,
            r.activation == activation,
            r.output.height == 0,
            r.output.width == 0,
            r.output.data.len() == 0,
            !r.output.transposed,
            r.first_moment_weight is None,
            r.first_moment_biase is None,
            r.second_moment_weight is None,
            r.second_moment_biase is None,
    {
        Layer {
            weights_t,
            biases,
            activation,
            output: Matrix::init_zero(0, 0),
            first_moment_weight: None,
            first_moment_biase: None,
            second_moment_weight: None,
            second_moment_biase: None,
        }
    }

    /// Deterministic constructor used by fixed-weight runs: a supplied weight
    /// matrix and a zero bias row of the given size.
    pub fn init_test(size: u32, activation: bool, weights_t: Matrix) -> (r: Layer)
        ensures
            r.weights_t == weights_t,
            r.biases.wf(),
            r.biases.height == 1,
            r.biases.width == size as usize,
            !r.biases.transposed,
            forall|i: int| 0 <= i < r.biases.data.len() ==> r.biases.data[i] == POS_ZERO,
            r.activation == activation,
            r.output.height == 0,
            r.output.width == 0,
            r.first_moment_weight is None,
            r.first_moment_biase is None,
            r.second_moment_weight is None,
            r.second_moment_biase is None,
    {
        proof {
            assert(1 * (size as usize) == size as usize) by (nonlinear_arith);
        }
        Layer {
            weights_t,
            biases: Matrix::init_zero(1, size as usize),
            activation,
            output: Matrix::init_zero(0, 0),
            first_moment_weight: None,
            first_moment_biase: None,
            second_moment_weight: None,
            second_moment_biase: None,
        }
    }

    /// The rectifier applied entry by entry.
    fn apply_activation(&self, input: &Matrix) -> (r: Matrix)
        requires
            input.wf(),
        ensures
            r.wf(),
            r.height == input.height,
            r.width == input.width,
            !r.transposed,
            forall|i: int, j: int|
                0 <= i < input.height && 0 <= j < input.width
                    ==> r.entry(i, j) == relu_spec(input.entry(i, j)),
    {
        let mut output: Matrix = Matrix::init_zero(input.height, input.width);
        let mut i: usize = 0;
        while i < input.height
            invariant
                input.wf(),
                output.wf(),
                output.height == input.height,
                output.width == input.width,
                !output.transposed,
                i <= input.height,
                forall|r2: int, c2: int|
                    0 <= r2 < i && 0 <= c2 < input.width
                        ==> output.entry(r2, c2) == relu_spec(input.entry(r2, c2)),
            decreases input.height - i,
        {
            let mut j: usize = 0;
            while j < input.width
                invariant
                    input.wf(),
                    output.wf(),
                    output.height == input.height,
                    output.width == input.width,
                    !output.transposed,
                    i < input.height,
                    j <= input.width,
                    forall|r2: int, c2: int|
                        0 <= r2 < i && 0 <= c2 < input.width
                            ==> output.entry(r2, c2) == relu_spec(input.entry(r2, c2)),
                    forall|c2: int|
                        0 <= c2 < j ==> output.entry(i as int, c2) == relu_spec(
                            input.entry(i as int, c2),
                        ),
                decreases input.width - j,
            {
                output.set(relu(input.get(i, j)), i, j);
                j = j + 1;
            }
            i = i + 1;
        }
        output
    }

    /// Forward pass: multiply by the stored (pre-transposed) weights, add
    /// the bias row to every row, apply the rectifier when enabled; unless
    /// this is a prediction-only call, cache the result for the next
    /// backward pass.
    pub fn forward(&mut self, input: &Matrix, predict: bool) -> (r: Matrix)
        requires
            old(self).wf(),
            input.wf(),
            input.width == old(self).weights_t.height,
            input.height * old(self).weights_t.width <= usize::MAX,
        ensures
            final(self).wf(),
            final(self).weights_t == old(self).weights_t,
            final(self).biases == old(self).biases,
            final(self).activation == old(self).activation,
            final(self).first_moment_weight == old(self).first_moment_weight,
            final(self).first_moment_biase == old(self).first_moment_biase,
            final(self).second_moment_weight == old(self).second_moment_weight,
            final(self).second_moment_biase == old(self).second_moment_biase,
            r.wf(),
            r.height == input.height,
            r.width == old(self).weights_t.width,
            !r.transposed,
            forall|rr: int, cc: int|
                0 <= rr < input.height && 0 <= cc < old(self).weights_t.width
                    ==> r.entry(rr, cc) == forward_entry(*old(self), *input, rr, cc),
            predict ==> final(self).output == old(self).output,
            !predict ==> matrix_like(final(self).output, r),
    {
        let z0: Matrix = input.dot(&self.weights_t);
        let z1: Matrix = z0.add_1d_matrix_to_all_rows(&self.biases);
        proof {
            assert forall|rr: int, cc: int|
                0 <= rr < z1.height && 0 <= cc < z1.width implies z1.entry(rr, cc) == fadd(
                dot_acc(entry_fn(*input), entry_fn(old(self).weights_t), rr, cc, input.width as nat),
                old(self).biases.entry(0, cc),
            ) by {
                lemma_entry_flat(z1, rr, cc);
                lemma_entry_flat(z0, rr, cc);
                let i = rr * (z0.width as int) + cc;
                assert(z0.entry(rr, cc) == dot_acc(
                    entry_fn(*input),
                    entry_fn(old(self).weights_t),
                    rr,
                    cc,
                    input.width as nat,
                ));
                assert(z1.data[i] == fadd(
                    z0.data[i],
                    old(self).biases.entry(0, i % (z0.width as int)),
                ));
                assert(z1.entry(rr, cc) == z1.data[i]);
                assert(z0.entry(rr, cc) == z0.data[i]);
            }
        }
        let tmp_output: Matrix = if self.activation {
            self.apply_activation(&z1)
        } else {
            z1
        };
        if !predict {
            self.output = tmp_output.clone();
        }
        tmp_output
    }

    /// Backward pass of the layer.  From the downstream gradient `d_z` and
    /// the cached activation `z_minus_1` of the preceding layer it computes
    /// the weight gradient (with the L2 term added in directly), the bias
    /// gradient, and the gradient to hand upstream; it then steps the
    /// parameters with the optimizer and returns the upstream gradient.
    pub fn backprop(
        &mut self,
        d_z: &Matrix,
        z_minus_1: &Matrix,
        previous_layer_activation: bool,
        lambda: u64,
        optimizer: &Optimizer,
        iteration: i32,
        is_input_layer: bool,
        debug: bool,
        debug_array_d_weights: &mut Option<Vec<Matrix>>,
        debug_array_d_biaises: &mut Option<Vec<Matrix>>,
        debug_array_d_outputs: &mut Option<Vec<Matrix>>,
    ) -> (r: Matrix)
        requires
            old(self).wf(),
            d_z.wf(),
            z_minus_1.wf(),
            d_z.height == z_minus_1.height,
            z_minus_1.width == old(self).weights_t.height,
            d_z.width == old(self).weights_t.width,
            moment_compat(
                old(self).first_moment_weight,
                old(self).weights_t.height as int,
                old(self).weights_t.width as int,
            ),
            moment_compat(
                old(self).second_moment_weight,
                old(self).weights_t.height as int,
                old(self).weights_t.width as int,
            ),
            moment_compat(
                old(self).first_moment_biase,
                old(self).biases.height as int,
                old(self).biases.width as int,
            ),
            moment_compat(
                old(self).second_moment_biase,
                old(self).biases.height as int,
                old(self).biases.width as int,
            ),
            adam_ok(*optimizer, iteration),
        ensures
            final(self).wf(),
            final(self).activation == old(self).activation,
            final(self).output == old(self).output,
            weights_step(
                *old(self),
                *final(self),
                |i: int| dw_entry(*old(self), *d_z, *z_minus_1, lambda, i),
                *optimizer,
                iteration,
            ),
            biases_step(
                *old(self),
                *final(self),
                |j: int| db_entry(*d_z, j),
                *optimizer,
                iteration,
            ),
            r.wf(),
            r.height == d_z.height,
            r.width == old(self).weights_t.height,
            !r.transposed,
            forall|rr: int, cc: int|
                0 <= rr < d_z.height && 0 <= cc < old(self).weights_t.height
                    ==> r.entry(rr, cc) == new_dz_entry(
                        *old(self),
                        *d_z,
                        *z_minus_1,
                        previous_layer_activation,
                        is_input_layer,
                        rr,
                        cc,
                    ),
            !debug ==> *final(debug_array_d_weights) == *old(debug_array_d_weights),
            !debug ==> *final(debug_array_d_biaises) == *old(debug_array_d_biaises),
            !debug ==> *final(debug_array_d_outputs) == *old(debug_array_d_outputs),
            debug ==> captured(*final(debug_array_d_outputs), *old(debug_array_d_outputs), *d_z),
            debug ==> captured_entries(
                *final(debug_array_d_weights),
                *old(debug_array_d_weights),
                old(self).weights_t.height as int,
                old(self).weights_t.width as int,
                old(self).weights_t.data.len() as int,
                |i: int| dw_entry(*old(self), *d_z, *z_minus_1, lambda, i),
            ),
            debug ==> captured_entries(
                *final(debug_array_d_biaises),
                *old(debug_array_d_biaises),
                1,
                d_z.width as int,
                d_z.width as int,
                |j: int| db_entry(*d_z, j),
            ),
    {
        proof {
            let h = old(self).weights_t.height as int;
            let w = old(self).weights_t.width as int;
            assert(old(self).weights_t.data.len() == h * w);
            let bw = old(self).biases.width as int;
            assert(old(self).biases.data.len() == 1 * bw);
            assert(1 * bw == bw) by (nonlinear_arith);
        }
        let zt: Matrix = z_minus_1.t();
        let dotp: Matrix = zt.dot(d_z);
        let wl: Matrix = self.weights_t.mult(lambda);
        let d_w: Matrix = dotp.add_two_matrices(&wl);
        let d_b: Matrix = d_z.sum_rows();
        proof {
            lemma_transpose_entry_fn(zt, *z_minus_1);
            assert forall|i: int| 0 <= i < d_w.data.len() implies d_w.data[i] == dw_entry(
                *old(self),
                *d_z,
                *z_minus_1,
                lambda,
                i,
            ) by {
                if dotp.width == 0 {
                    let dh = dotp.height as int;
                    assert(dh * 0 == 0) by (nonlinear_arith);
                }
                lemma_flat_entry(dotp, i);
                let rr = i / (dotp.width as int);
                let cc = i % (dotp.width as int);
                assert(dotp.entry(rr, cc) == dot_acc(
                    entry_fn(zt),
                    entry_fn(*d_z),
                    rr,
                    cc,
                    zt.width as nat,
                ));
                assert(dotp.entry(rr, cc) == dotp.data[i]);
            }
            assert(1 * (d_z.width as int) == d_z.width as int) by (nonlinear_arith);
            assert forall|j: int| 0 <= j < d_b.data.len() implies d_b.data[j] == db_entry(
                *d_z,
                j,
            ) by {
            }
        }
        if debug {
            capture_push(debug_array_d_outputs, d_z.clone());
            capture_push(debug_array_d_weights, d_w.clone());
            capture_push(debug_array_d_biaises, d_b.clone());
        }
        let wt: Matrix = self.weights_t.t();
        proof {
            assert(z_minus_1.data.len() == (z_minus_1.height as int) * (z_minus_1.width as int));
        }
        let mut new_d_z: Matrix = d_z.dot(&wt);
        let ghost base_m: Matrix = new_d_z;
        proof {
            lemma_transpose_entry_fn(wt, old(self).weights_t);
        }
        if !is_input_layer {
            if previous_layer_activation {
                proof {
                    let nh = new_d_z.height as int;
                    let nw = new_d_z.width as int;
                    assert(new_d_z.data.len() == nh * nw);
                    assert(z_minus_1.data.len() == nh * nw);
                }
                new_d_z.compute_d_relu_inplace(z_minus_1);
            }
        }
        proof {
            assert forall|rr: int, cc: int|
                0 <= rr < d_z.height && 0 <= cc < old(self).weights_t.height
                    implies new_d_z.entry(rr, cc) == new_dz_entry(
                *old(self),
                *d_z,
                *z_minus_1,
                previous_layer_activation,
                is_input_layer,
                rr,
                cc,
            ) by {
                lemma_entry_flat(base_m, rr, cc);
                let i = rr * (base_m.width as int) + cc;
                assert(base_m.entry(rr, cc) == base_m.data[i]);
                assert(base_m.entry(rr, cc) == dot_acc(
                    entry_fn(*d_z),
                    entry_fn(wt),
                    rr,
                    cc,
                    d_z.width as nat,
                ));
                if !is_input_layer && previous_layer_activation {
                    lemma_entry_flat(new_d_z, rr, cc);
                    assert(new_d_z.entry(rr, cc) == new_d_z.data[i]);
                }
            }
        }
        let ghost mid0: Layer = *self;
        self.update_weigths(d_w, optimizer, iteration);
        let ghost mid1: Layer = *self;
        self.update_biases(d_b, optimizer, iteration);
        proof {
            assert(weights_step(
                *old(self),
                *final(self),
                |i: int| d_w.data[i],
                *optimizer,
                iteration,
            ));
            lemma_weights_step_congruent(
                *old(self),
                *final(self),
                |i: int| d_w.data[i],
                |i: int| dw_entry(*old(self), *d_z, *z_minus_1, lambda, i),
                *optimizer,
                iteration,
            );
            assert(biases_step(
                mid1,
                *final(self),
                |j: int| d_b.data[j],
                *optimizer,
                iteration,
            ));
            assert(biases_step(
                *old(self),
                *final(self),
                |j: int| d_b.data[j],
                *optimizer,
                iteration,
            ));
            lemma_biases_step_congruent(
                *old(self),
                *final(self),
                |j: int| d_b.data[j],
                |j: int| db_entry(*d_z, j),
                *optimizer,
                iteration,
            );
        }
        new_d_z
    }

    /// One optimizer step on the weights with the given gradient tensor.
    pub fn update_weigths(&mut self, input: Matrix, optimizer: &Optimizer, iteration: i32)
        requires
            old(self).weights_t.wf(),
            input.wf(),
            input.height == old(self).weights_t.height,
            input.width == old(self).weights_t.width,
            moment_compat(
                old(self).first_moment_weight,
                old(self).weights_t.height as int,
                old(self).weights_t.width as int,
            ),
            moment_compat(
                old(self).second_moment_weight,
                old(self).weights_t.height as int,
                old(self).weights_t.width as int,
            ),
            adam_ok(*optimizer, iteration),
        ensures
            weights_step(*old(self), *final(self), |i: int| input.data[i], *optimizer, iteration),
            final(self).weights_t.wf(),
            final(self).biases == old(self).biases,
            final(self).activation == old(self).activation,
            final(self).output == old(self).output,
            final(self).first_moment_biase == old(self).first_moment_biase,
            final(self).second_moment_biase == old(self).second_moment_biase,
    {
        match optimizer {
            Optimizer::SGD { learning_step } => {
                let scaled: Matrix = input.mult(mul_bits(*learning_step, NEG_ONE_BITS));
                self.weights_t = self.weights_t.add_two_matrices(&scaled);
            },
            Optimizer::Adam { learning_step, beta1, beta2 } => {
                let mut corrected_first: Matrix = self.compute_corrected_first_moment_weights(
                    input.clone(),
                    *beta1,
                    iteration,
                );
                let mut corrected_second: Matrix = self.compute_corrected_second_moment_weights(
                    input,
                    *beta2,
                    iteration,
                );
                corrected_second.sqrt_inplace();
                corrected_second.add_inplace(EPSILON_BITS);
                corrected_first.div_two_matrices_inplace(&corrected_second);
                let scaled: Matrix = corrected_first.mult(mul_bits(*learning_step, NEG_ONE_BITS));
                self.weights_t = self.weights_t.add_two_matrices(&scaled);
            },
        }
    }

    /// One optimizer step on the biases with the given gradient row.
    pub fn update_biases(&mut self, input: Matrix, optimizer: &Optimizer, iteration: i32)
        requires
            old(self).biases.wf(),
            input.wf(),
            input.height == old(self).biases.height,
            input.width == old(self).biases.width,
            moment_compat(
                old(self).first_moment_biase,
                old(self).biases.height as int,
                old(self).biases.width as int,
            ),
            moment_compat(
                old(self).second_moment_biase,
                old(self).biases.height as int,
                old(self).biases.width as int,
            ),
            adam_ok(*optimizer, iteration),
        ensures
            biases_step(*old(self), *final(self), |i: int| input.data[i], *optimizer, iteration),
            final(self).biases.wf(),
            final(self).weights_t == old(self).weights_t,
            final(self).activation == old(self).activation,
            final(self).output == old(self).output,
            final(self).first_moment_weight == old(self).first_moment_weight,
            final(self).second_moment_weight == old(self).second_moment_weight,
    {
        match optimizer {
            Optimizer::SGD { learning_step } => {
                let scaled: Matrix = input.mult(mul_bits(*learning_step, NEG_ONE_BITS));
                self.biases = self.biases.add_two_matrices(&scaled);
            },
            Optimizer::Adam { learning_step, beta1, beta2 } => {
                let mut corrected_first: Matrix = self.compute_corrected_first_moment_biases(
                    input.clone(),
                    *beta1,
                    iteration,
                );
                let mut corrected_second: Matrix = self.compute_corrected_second_moment_biases(
                    input,
                    *beta2,
                    iteration,
                );
                corrected_second.sqrt_inplace();
                corrected_second.add_inplace(EPSILON_BITS);
                corrected_first.div_two_matrices_inplace(&corrected_second);
                let scaled: Matrix = corrected_first.mult(mul_bits(*learning_step, NEG_ONE_BITS));
                self.biases = self.biases.add_two_matrices(&scaled);
            },
        }
    }

    /// Update the first weight moment in place (allocating it as zeros on
    /// first use) and return its bias-corrected value.
    fn compute_corrected_first_moment_weights(
        &mut self,
        input: Matrix,
        beta1: u64,
        iteration: i32,
    ) -> (r: Matrix)
        requires
            old(self).weights_t.wf(),
            input.wf(),
            input.height == old(self).weights_t.height,
            input.width == old(self).weights_t.width,
            moment_compat(
                old(self).first_moment_weight,
                old(self).weights_t.height as int,
                old(self).weights_t.width as int,
            ),
            !feq(fsub(ONE_BITS, fpowi(beta1, iteration)), POS_ZERO),
        ensures
            moment_updated(
                final(self).first_moment_weight,
                old(self).first_moment_weight,
                |i: int| input.data[i],
                beta1,
                old(self).weights_t.data.len() as int,
                old(self).weights_t.height as int,
                old(self).weights_t.width as int,
                false,
            ),
            final(self).weights_t == old(self).weights_t,
            final(self).biases == old(self).biases,
            final(self).activation == old(self).activation,
            final(self).output == old(self).output,
            final(self).first_moment_biase == old(self).first_moment_biase,
            final(self).second_moment_weight == old(self).second_moment_weight,
            final(self).second_moment_biase == old(self).second_moment_biase,
            r.height == old(self).weights_t.height,
            r.width == old(self).weights_t.width,
            r.data.len() == old(self).weights_t.data.len(),
            forall|i: int|
                0 <= i < old(self).weights_t.data.len()
                    ==> r.data[i] == corrected(
                        m1_next(old(self).first_moment_weight, input.data[i], beta1, i),
                        beta1,
                        iteration,
                    ),
    {
        let mut grad = input;
        grad.mult_inplace(sub_bits(ONE_BITS, beta1));
        if self.first_moment_weight.is_none() {
            self.first_moment_weight = Some(
                Matrix::init_zero(self.weights_t.height, self.weights_t.width),
            );
        }
        match &mut self.first_moment_weight {
            Some(m) => {
                m.mult_inplace(beta1);
                m.add_two_matrices_inplace(&grad);
            },
            None => {},
        }
        let denom: u64 = sub_bits(ONE_BITS, powi_bits(beta1, iteration));
        match &self.first_moment_weight {
            Some(m) => m.div(denom),
            None => Matrix::init_zero(0, 0),
        }
    }

    /// Update the first bias moment in place and return its bias-corrected
    /// value.
    fn compute_corrected_first_moment_biases(
        &mut self,
        input: Matrix,
        beta1: u64,
        iteration: i32,
    ) -> (r: Matrix)
        requires
            old(self).biases.wf(),
            input.wf(),
            input.height == old(self).biases.height,
            input.width == old(self).biases.width,
            moment_compat(
                old(self).first_moment_biase,
                old(self).biases.height as int,
                old(self).biases.width as int,
            ),
            !feq(fsub(ONE_BITS, fpowi(beta1, iteration)), POS_ZERO),
        ensures
            moment_updated(
                final(self).first_moment_biase,
                old(self).first_moment_biase,
                |i: int| input.data[i],
                beta1,
                old(self).biases.data.len() as int,
                old(self).biases.height as int,
                old(self).biases.width as int,
                false,
            ),
            final(self).weights_t == old(self).weights_t,
            final(self).biases == old(self).biases,
            final(self).activation == old(self).activation,
            final(self).output == old(self).output,
            final(self).first_moment_weight == old(self).first_moment_weight,
            final(self).second_moment_weight == old(self).second_moment_weight,
            final(self).second_moment_biase == old(self).second_moment_biase,
            r.height == old(self).biases.height,
            r.width == old(self).biases.width,
            r.data.len() == old(self).biases.data.len(),
            forall|i: int|
                0 <= i < old(self).biases.data.len()
                    ==> r.data[i] == corrected(
                        m1_next(old(self).first_moment_biase, input.data[i], beta1, i),
                        beta1,
                        iteration,
                    ),
    {
        let mut grad = input;
        grad.mult_inplace(sub_bits(ONE_BITS, beta1));
        if self.first_moment_biase.is_none() {
            self.first_moment_biase = Some(
                Matrix::init_zero(self.biases.height, self.biases.width),
            );
        }
        match &mut self.first_moment_biase {
            Some(m) => {
                m.mult_inplace(beta1);
                m.add_two_matrices_inplace(&grad);
            },
            None => {},
        }
        let denom: u64 = sub_bits(ONE_BITS, powi_bits(beta1, iteration));
        match &self.first_moment_biase {
            Some(m) => m.div(denom),
            None => Matrix::init_zero(0, 0),
        }
    }

    /// Update the second weight moment in place (the moving average of the
    /// squared gradient) and return its bias-corrected value.
    fn compute_corrected_second_moment_weights(
        &mut self,
        input: Matrix,
        beta2: u64,
        iteration: i32,
    ) -> (r: Matrix)
        requires
            old(self).weights_t.wf(),
            input.wf(),
            input.height == old(self).weights_t.height,
            input.width == old(self).weights_t.width,
            moment_compat(
                old(self).second_moment_weight,
                old(self).weights_t.height as int,
                old(self).weights_t.width as int,
            ),
            !feq(fsub(ONE_BITS, fpowi(beta2, iteration)), POS_ZERO),
        ensures
            moment_updated(
                final(self).second_moment_weight,
                old(self).second_moment_weight,
                |i: int| input.data[i],
                beta2,
                old(self).weights_t.data.len() as int,
                old(self).weights_t.height as int,
                old(self).weights_t.width as int,
                true,
            ),
            final(self).weights_t == old(self).weights_t,
            final(self).biases == old(self).biases,
            final(self).activation == old(self).activation,
            final(self).output == old(self).output,
            final(self).first_moment_weight == old(self).first_moment_weight,
            final(self).first_moment_biase == old(self).first_moment_biase,
            final(self).second_moment_biase == old(self).second_moment_biase,
            r.height == old(self).weights_t.height,
            r.width == old(self).weights_t.width,
            r.data.len() == old(self).weights_t.data.len(),
            forall|i: int|
                0 <= i < old(self).weights_t.data.len()
                    ==> r.data[i] == corrected(
                        m2_next(old(self).second_moment_weight, input.data[i], beta2, i),
                        beta2,
                        iteration,
                    ),
    {
        let mut grad = input;
        grad.pow_inplace(2);
        grad.mult_inplace(sub_bits(ONE_BITS, beta2));
        if self.second_moment_weight.is_none() {
            self.second_moment_weight = Some(
                Matrix::init_zero(self.weights_t.height, self.weights_t.width),
            );
        }
        match &mut self.second_moment_weight {
            Some(m) => {
                m.mult_inplace(beta2);
                m.add_two_matrices_inplace(&grad);
            },
            None => {},
        }
        let denom: u64 = sub_bits(ONE_BITS, powi_bits(beta2, iteration));
        match &self.second_moment_weight {
            Some(m) => m.div(denom),
            None => Matrix::init_zero(0, 0),
        }
    }

    /// Update the second bias moment in place and return its bias-corrected
    /// value.
    fn compute_corrected_second_moment_biases(
        &mut self,
        input: Matrix,
        beta2: u64,
        iteration: i32,
    ) -> (r: Matrix)
        requires
            old(self).biases.wf(),
            input.wf(),
            input.height == old(self).biases.height,
            input.width == old(self).biases.width,
            moment_compat(
                old(self).second_moment_biase,
                old(self).biases.height as int,
                old(self).biases.width as int,
            ),
            !feq(fsub(ONE_BITS, fpowi(beta2, iteration)), POS_ZERO),
        ensures
            moment_updated(
                final(self).second_moment_biase,
                old(self).second_moment_biase,
                |i: int| input.data[i],
                beta2,
                old(self).biases.data.len() as int,
                old(self).biases.height as int,
                old(self).biases.width as int,
                true,
            ),
            final(self).weights_t == old(self).weights_t,
            final(self).biases == old(self).biases,
            final(self).activation == old(self).activation,
            final(self).output == old(self).output,
            final(self).first_moment_weight == old(self).first_moment_weight,
            final(self).first_moment_biase == old(self).first_moment_biase,
            final(self).second_moment_weight == old(self).second_moment_weight,
            r.height == old(self).biases.height,
            r.width == old(self).biases.width,
            r.data.len() == old(self).biases.data.len(),
            forall|i: int|
                0 <= i < old(self).biases.data.len()
                    ==> r.data[i] == corrected(
                        m2_next(old(self).second_moment_biase, input.data[i], beta2, i),
                        beta2,
                        iteration,
                    ),
    {
        let mut grad = input;
        grad.pow_inplace(2);
        grad.mult_inplace(sub_bits(ONE_BITS, beta2));
        if self.second_moment_biase.is_none() {
            self.second_moment_biase = Some(
                Matrix::init_zero(self.biases.height, self.biases.width),
            );
        }
        match &mut self.second_moment_biase {
            Some(m) => {
                m.mult_inplace(beta2);
                m.add_two_matrices_inplace(&grad);
            },
            None => {},
        }
        let denom: u64 = sub_bits(ONE_BITS, powi_bits(beta2, iteration));
        match &self.second_moment_biase {
            Some(m) => m.div(denom),
            None => Matrix::init_zero(0, 0),
        }
    }
}

impl Clone for Layer {
    fn clone(&self) -> (r: Layer)
        ensures
            matrix_like(r.weights_t, self.weights_t),
            matrix_like(r.biases, self.biases),
            r.activation == self.activation,
            matrix_like(r.output, self.output),
            option_matrix_like(r.first_moment_weight, self.first_moment_weight),
            option_matrix_like(r.first_moment_biase, self.first_moment_biase),
            option_matrix_like(r.second_moment_weight, self.second_moment_weight),
            option_matrix_like(r.second_moment_biase, self.second_moment_biase),
    {
        Layer {
            weights_t: self.weights_t.clone(),
            biases: self.biases.clone(),
            activation: self.activation,
            output: self.output.clone(),
            first_moment_weight: clone_opt_matrix(&self.first_moment_weight),
            first_moment_biase: clone_opt_matrix(&self.first_moment_biase),
            second_moment_weight: clone_opt_matrix(&self.second_moment_weight),
            second_moment_biase: clone_opt_matrix(&self.second_moment_biase),
        }
    }
}

/// The two layers agree in everything a clone preserves: parameters,
/// activation flag, cached output and moment buffers.
pub open spec fn layer_like(a: Layer, b: Layer) -> bool {
    &&& matrix_like(a.weights_t, b.weights_t)
    &&& matrix_like(a.biases, b.biases)
    &&& a.activation == b.activation
    &&& matrix_like(a.output, b.output)
    &&& option_matrix_like(a.first_moment_weight, b.first_moment_weight)
    &&& option_matrix_like(a.first_moment_biase, b.first_moment_biase)
    &&& option_matrix_like(a.second_moment_weight, b.second_moment_weight)
    &&& option_matrix_like(a.second_moment_biase, b.second_moment_biase)
}

/// The two optional matrices hold like matrices, or are both absent.
pub open spec fn option_matrix_like(a: Option<Matrix>, b: Option<Matrix>) -> bool {
    match (a, b) {
        (Some(x), Some(y)) => matrix_like(x, y),
        (None, None) => true,
        _ => false,
    }
}

/// Append a matrix to a capture buffer, allocating the buffer on first use.
pub(crate) fn capture_push(arr: &mut Option<Vec<Matrix>>, m: Matrix)
    ensures
        match *final(arr) {
            Some(v) => {
                &&& v.len() == opt_vec_len(*old(arr)) + 1
                &&& v@.take(v.len() - 1) == opt_vec_seq(*old(arr))
                &&& v@[v.len() - 1] == m
            },
            None => false,
        },
{
    if arr.is_none() {
        *arr = Some(Vec::new());
    }
    match arr {
        Some(v) => {
            v.push(m);
            proof {
                assert(v@.take(v.len() - 1) =~= opt_vec_seq(*old(arr)));
            }
        },
        None => {},
    }
}

fn clone_opt_matrix(m: &Option<Matrix>) -> (r: Option<Matrix>)
    ensures
        option_matrix_like(r, *m),
{
    match m {
        Some(b) => Some(b.clone()),
        None => None,
    }
}

} // verus!
