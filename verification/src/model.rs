//! The model: an ordered chain of layers, the L2 coefficient, the optimizer,
//! and an optional debug-capture bundle that training fills only on request.

use vstd::prelude::*;

use crate::arith::{div_bits, fadd, fdiv, ffrom_uint, fmul, fsub, sub_bits, uint_bits};
use crate::fbits::{bits_eq, bits_lt, feq, flt, POS_ZERO, ONE_BITS};
use crate::layers::Layer;
use crate::matrix::{dot_acc, matrix_like, Matrix};
use crate::optimizer::Optimizer;

verus! {

pub struct Model {
    pub layers: Vec<Layer>,
    pub lambda: u64,
    pub optimizer: Optimizer,
    // debug capture, filled only when a training call asks for it
    pub layers_debug: Option<Vec<Layer>>,
    pub input: Option<Matrix>,
    pub input_label: Option<Matrix>,
    pub itermediate_evaluation_results: Option<Vec<Matrix>>,
    pub softmax_output: Option<Matrix>,
    pub data_loss: Option<u64>,
    pub reg_loss: Option<u64>,
    pub loss: Option<u64>,
    pub d_score: Option<Matrix>,
    pub d_zs: Option<Vec<Matrix>>,
    pub d_ws: Option<Vec<Matrix>>,
    pub d_bs: Option<Vec<Matrix>>,
}

/// Running argmax over the first `k` entries of row `r`: starts from column
/// 0 and the value +0.0, and moves only on a strictly greater score.  With an
/// all-negative row this reports column 0 — a deliberate quirk of the
/// engine, kept as it is.
pub open spec fn argmax_acc(score: Matrix, r: int, k: nat) -> (int, u64)
    decreases k,
{
    if k == 0 {
        (0, POS_ZERO)
    } else {
        let prev = argmax_acc(score, r, (k - 1) as nat);
        if flt(prev.1, score.entry(r, k - 1)) {
            (k - 1, score.entry(r, k - 1))
        } else {
            prev
        }
    }
}

/// Column index of the winning score of row `r`.
pub open spec fn argmax_index(score: Matrix, r: int) -> int {
    argmax_acc(score, r, score.width as nat).0
}

/// The prediction for row `r` matches its label: the label value equals the
/// argmax column index converted to binary64.
pub open spec fn row_matches(score: Matrix, labels: Matrix, r: int) -> bool {
    feq(labels.entry(0, r), ffrom_uint(argmax_index(score, r) as u64))
}

/// Number of rows among the first `k` whose prediction matches the label.
pub open spec fn acc_matches(score: Matrix, labels: Matrix, k: nat) -> nat
    decreases k,
{
    if k == 0 {
        0
    } else {
        acc_matches(score, labels, (k - 1) as nat) + if row_matches(score, labels, k - 1) {
            1nat
        } else {
            0nat
        }
    }
}

/// Law: when every row's prediction matches its label the match count is the
/// row count, and when no row's does it is zero — the two extremes of the
/// accuracy metric.
pub proof fn lemma_accuracy_extremes(score: Matrix, labels: Matrix, k: nat)
    ensures
        (forall|r: int| 0 <= r < k ==> row_matches(score, labels, r)) ==> acc_matches(
            score,
            labels,
            k,
        ) == k,
        (forall|r: int| 0 <= r < k ==> !row_matches(score, labels, r)) ==> acc_matches(
            score,
            labels,
            k,
        ) == 0,
    decreases k,
{
    if k > 0 {
        lemma_accuracy_extremes(score, labels, (k - 1) as nat);
    }
}

/// Entry `(r, c)` of the output of layer `k` when the layer chain is fed
/// `input`; `k == -1` stands for the input itself.
pub open spec fn chain_entry(layers: Seq<Layer>, input: Matrix, k: int, r: int, c: int) -> u64
    decreases k + 1, 1int, 0int,
{
    if k < 0 {
        input.entry(r, c)
    } else {
        let l = layers[k];
        let z = fadd(
            chain_dot(layers, input, k, r, c, l.weights_t.height as nat),
            l.biases.entry(0, c),
        );
        if l.activation {
            crate::activation::relu_spec(z)
        } else {
            z
        }
    }
}

/// The dot fold feeding entry `(r, c)` of layer `k`: the first `t` products
/// of the previous level's entries with column `c` of layer `k`'s stored
/// weights, summed in index order from +0.0.
pub open spec fn chain_dot(layers: Seq<Layer>, input: Matrix, k: int, r: int, c: int, t: nat) -> u64
    decreases k + 1, 0int, t,
{
    if t == 0 || k < 0 {
        POS_ZERO
    } else {
        fadd(
            chain_dot(layers, input, k, r, c, (t - 1) as nat),
            fmul(
                chain_entry(layers, input, k - 1, r, t - 1),
                layers[k].weights_t.entry(t - 1, c),
            ),
        )
    }
}

/// A matrix whose row `r` holds the previous level's entries turns the chain
/// fold into the plain dot fold on that matrix.
proof fn lemma_chain_dot_equals(
    layers: Seq<Layer>,
    input: Matrix,
    k: int,
    cur: Matrix,
    r: int,
    c: int,
    t: nat,
)
    requires
        0 <= k,
        forall|j: int|
            0 <= j < t ==> cur.entry(r, j) == chain_entry(layers, input, k - 1, r, j),
    ensures
        chain_dot(layers, input, k, r, c, t) == dot_acc(
            crate::matrix::entry_fn(cur),
            crate::matrix::entry_fn(layers[k].weights_t),
            r,
            c,
            t,
        ),
    decreases t,
{
    if t > 0 {
        lemma_chain_dot_equals(layers, input, k, cur, r, c, (t - 1) as nat);
        assert(cur.entry(r, t - 1) == chain_entry(layers, input, k - 1, r, t - 1));
    }
}

/// Entry `(r, c)` of the loss gradient arriving at layer `k` during the
/// backward pass: the last layer receives the score gradient itself, and
/// every earlier layer receives the product of the next layer's gradient
/// with the transpose of its stored weights, masked by the rectifier rule of
/// layer `k` when that layer applied one.
pub open spec fn dz_entry(layers: Seq<Layer>, d_score: Matrix, k: int, r: int, c: int) -> u64
    decreases layers.len() - k, 1int, 0int,
{
    if k >= layers.len() - 1 {
        d_score.entry(r, c)
    } else {
        let l = layers[k + 1];
        let base = dz_dot(layers, d_score, k, r, c, l.weights_t.width as nat);
        if layers[k].activation && crate::fbits::fle(
            layers[k].output.data[r * (l.weights_t.height as int) + c],
            POS_ZERO,
        ) {
            POS_ZERO
        } else {
            base
        }
    }
}

/// The dot fold handing the gradient of level `k + 1` down through the
/// transposed weights of layer `k + 1`.
pub open spec fn dz_dot(layers: Seq<Layer>, d_score: Matrix, k: int, r: int, c: int, t: nat) -> u64
    decreases layers.len() - k, 0int, t,
{
    if t == 0 || k >= layers.len() - 1 {
        POS_ZERO
    } else {
        fadd(
            dz_dot(layers, d_score, k, r, c, (t - 1) as nat),
            fmul(
                dz_entry(layers, d_score, k + 1, r, t - 1),
                layers[k + 1].weights_t.entry(c, t - 1),
            ),
        )
    }
}

/// The cached activation that feeds layer `k`: the input itself for the
/// first layer, the previous layer's cached output otherwise.
pub open spec fn z_before(layers: Seq<Layer>, input: Matrix, k: int) -> Matrix {
    if k == 0 {
        input
    } else {
        layers[k - 1].output
    }
}

/// The dot fold of the weight gradient of layer `k`: transposed incoming
/// activation times the gradient that arrives at layer `k`.
pub open spec fn dw_dot(
    layers: Seq<Layer>,
    d_score: Matrix,
    input: Matrix,
    k: int,
    a: int,
    b: int,
    t: nat,
) -> u64
    decreases t,
{
    if t == 0 {
        POS_ZERO
    } else {
        fadd(
            dw_dot(layers, d_score, input, k, a, b, (t - 1) as nat),
            fmul(
                z_before(layers, input, k).entry(t - 1, a),
                dz_entry(layers, d_score, k, t - 1, b),
            ),
        )
    }
}

/// Flat entry `i` of the weight gradient of layer `k`, the L2 term added in.
pub open spec fn model_dw_entry(
    layers: Seq<Layer>,
    d_score: Matrix,
    input: Matrix,
    k: int,
    lambda: u64,
    i: int,
) -> u64 {
    let w = layers[k].weights_t.width as int;
    fadd(
        dw_dot(layers, d_score, input, k, i / w, i % w, d_score.height as nat),
        fmul(layers[k].weights_t.data[i], lambda),
    )
}

/// The flat buffer of the gradient that arrives at layer `k`.
pub open spec fn dz_data(layers: Seq<Layer>, d_score: Matrix, k: int) -> Seq<u64> {
    let w = layers[k].weights_t.width as int;
    Seq::new(
        (d_score.height * layers[k].weights_t.width) as nat,
        |i: int| dz_entry(layers, d_score, k, i / w, i % w),
    )
}

/// Entry `j` of the bias gradient of layer `k`: the sum of column `j` of the
/// gradient that arrives at layer `k`.
pub open spec fn model_db_entry(layers: Seq<Layer>, d_score: Matrix, k: int, j: int) -> u64 {
    let w = layers[k].weights_t.width as int;
    crate::matrix::col_sum_acc(
        dz_data(layers, d_score, k),
        w,
        j,
        (d_score.height * layers[k].weights_t.width) as int,
    )
}

/// A matrix holding the gradient entries of level `k + 1` turns the chain
/// fold into the plain dot fold against the transposed weights.
proof fn lemma_dz_dot_equals(
    layers: Seq<Layer>,
    d_score: Matrix,
    k: int,
    cur: Matrix,
    r: int,
    c: int,
    t: nat,
)
    requires
        0 <= k < layers.len() - 1,
        forall|j: int| 0 <= j < t ==> cur.entry(r, j) == dz_entry(layers, d_score, k + 1, r, j),
    ensures
        dz_dot(layers, d_score, k, r, c, t) == dot_acc(
            crate::matrix::entry_fn(cur),
            crate::matrix::entry_fn_t(layers[k + 1].weights_t),
            r,
            c,
            t,
        ),
    decreases t,
{
    if t > 0 {
        lemma_dz_dot_equals(layers, d_score, k, cur, r, c, (t - 1) as nat);
        assert(cur.entry(r, t - 1) == dz_entry(layers, d_score, k + 1, r, t - 1));
    }
}

/// Matrices holding the incoming activation and the arriving gradient of
/// layer `k` turn the weight-gradient fold into the plain dot fold.
proof fn lemma_dw_dot_equals(
    layers: Seq<Layer>,
    d_score: Matrix,
    input: Matrix,
    k: int,
    zp: Matrix,
    cur: Matrix,
    a: int,
    b: int,
    t: nat,
)
    requires
        forall|j: int| 0 <= j < t ==> zp.entry(j, a) == z_before(layers, input, k).entry(j, a),
        forall|j: int| 0 <= j < t ==> cur.entry(j, b) == dz_entry(layers, d_score, k, j, b),
    ensures
        dot_acc(
            crate::matrix::entry_fn_t(zp),
            crate::matrix::entry_fn(cur),
            a,
            b,
            t,
        ) == dw_dot(layers, d_score, input, k, a, b, t),
    decreases t,
{
    if t > 0 {
        lemma_dw_dot_equals(layers, d_score, input, k, zp, cur, a, b, (t - 1) as nat);
        assert(zp.entry(t - 1, a) == z_before(layers, input, k).entry(t - 1, a));
        assert(cur.entry(t - 1, b) == dz_entry(layers, d_score, k, t - 1, b));
    }
}

/// The backward pass is shaped to consume `d_score` and `input`: the layers
/// chain as in the forward pass, every cached output has the batch height,
/// and the moment buffers fit their parameter tensors.
pub open spec fn update_chain_ok(
    layers: Seq<Layer>,
    d_score: Matrix,
    input: Matrix,
    opt: Optimizer,
    iteration: i32,
) -> bool {
    &&& layers.len() > 0
    &&& d_score.wf()
    &&& !d_score.transposed
    &&& input.wf()
    &&& input.height == d_score.height
    &&& input.width == layers[0].weights_t.height
    &&& d_score.width == layers[layers.len() - 1].weights_t.width
    &&& crate::layers::adam_ok(opt, iteration)
    &&& forall|k: int| 0 <= k < layers.len() ==> (#[trigger] layers[k]).wf()
    &&& forall|k: int|
        1 <= k < layers.len() ==> (#[trigger] layers[k]).weights_t.height == layers[k
            - 1].weights_t.width
    &&& forall|k: int|
        0 <= k < layers.len() - 1 ==> ((#[trigger] layers[k]).output.wf()
            && layers[k].output.height == d_score.height && layers[k].output.width
            == layers[k].weights_t.width)
    &&& forall|k: int|
        0 <= k < layers.len() ==> crate::layers::moment_compat(
            (#[trigger] layers[k]).first_moment_weight,
            layers[k].weights_t.height as int,
            layers[k].weights_t.width as int,
        ) && crate::layers::moment_compat(
            layers[k].second_moment_weight,
            layers[k].weights_t.height as int,
            layers[k].weights_t.width as int,
        ) && crate::layers::moment_compat(
            layers[k].first_moment_biase,
            layers[k].biases.height as int,
            layers[k].biases.width as int,
        ) && crate::layers::moment_compat(
            layers[k].second_moment_biase,
            layers[k].biases.height as int,
            layers[k].biases.width as int,
        )
}

/// The layer chain is shaped to consume `input`: every layer is well formed,
/// the first expects the input width, and each later layer expects the width
/// of its predecessor.
pub open spec fn chain_ok(layers: Seq<Layer>, input: Matrix) -> bool {
    &&& input.wf()
    &&& layers.len() > 0
    &&& forall|k: int| 0 <= k < layers.len() ==> (#[trigger] layers[k]).wf()
    &&& layers[0].weights_t.height == input.width
    &&& forall|k: int|
        1 <= k < layers.len() ==> (#[trigger] layers[k]).weights_t.height == layers[k
            - 1].weights_t.width
    &&& forall|k: int|
        0 <= k < layers.len() ==> input.height * (#[trigger] layers[k]).weights_t.width
            <= usize::MAX
}

/// Feeding a layer an input whose entries are the chain output of the
/// previous level yields the chain output of this level.
proof fn lemma_forward_chain_connect(
    pre_layers: Seq<Layer>,
    input: Matrix,
    index: int,
    l: Layer,
    current: Matrix,
    out: Matrix,
)
    requires
        0 <= index < pre_layers.len(),
        l.weights_t == pre_layers[index].weights_t,
        l.biases == pre_layers[index].biases,
        l.activation == pre_layers[index].activation,
        current.height == out.height,
        current.width == l.weights_t.height,
        forall|rr: int, cc: int|
            0 <= rr < current.height && 0 <= cc < current.width ==> current.entry(rr, cc)
                == chain_entry(pre_layers, input, index - 1, rr, cc),
        forall|rr: int, cc: int|
            0 <= rr < out.height && 0 <= cc < out.width ==> out.entry(rr, cc)
                == crate::layers::forward_entry(l, current, rr, cc),
    ensures
        forall|rr: int, cc: int|
            0 <= rr < out.height && 0 <= cc < out.width ==> out.entry(rr, cc) == chain_entry(
                pre_layers,
                input,
                index,
                rr,
                cc,
            ),
{
    assert forall|rr: int, cc: int|
        0 <= rr < out.height && 0 <= cc < out.width implies out.entry(rr, cc) == chain_entry(
        pre_layers,
        input,
        index,
        rr,
        cc,
    ) by {
        lemma_chain_dot_equals(
            pre_layers,
            input,
            index,
            current,
            rr,
            cc,
            l.weights_t.height as nat,
        );
        assert(out.entry(rr, cc) == crate::layers::forward_entry(l, current, rr, cc));
    }
}

impl Model {
    /// Forward pass through the whole chain, caching each layer's output for
    /// the backward pass, and returning the raw (pre-softmax) scores.  The
    /// caller completes the evaluation by exponentiating (the step this
    /// engine leaves to the platform) between `softmax_shift` and
    /// `softmax_normalize`.
    #[verifier::rlimit(100)]
    pub fn forward_scores(&mut self, input: &Matrix, debug: bool) -> (r: Matrix)
        requires
            chain_ok(old(self).layers@, *input),
        ensures
            final(self).layers.len() == old(self).layers.len(),
            final(self).lambda == old(self).lambda,
            final(self).optimizer == old(self).optimizer,
            forall|k: int|
                0 <= k < old(self).layers.len() ==> {
                    let post = #[trigger] final(self).layers@[k];
                    let pre = old(self).layers@[k];
                    &&& post.weights_t == pre.weights_t
                    &&& post.biases == pre.biases
                    &&& post.activation == pre.activation
                    &&& post.first_moment_weight == pre.first_moment_weight
                    &&& post.first_moment_biase == pre.first_moment_biase
                    &&& post.second_moment_weight == pre.second_moment_weight
                    &&& post.second_moment_biase == pre.second_moment_biase
                },
            forall|k: int|
                0 <= k < old(self).layers.len() ==> {
                    let out = (#[trigger] final(self).layers@[k]).output;
                    &&& out.wf()
                    &&& out.height == input.height
                    &&& out.width == old(self).layers@[k].weights_t.width
                    &&& !out.transposed
                    &&& forall|rr: int, cc: int|
                        0 <= rr < out.height && 0 <= cc < out.width ==> out.entry(rr, cc)
                            == chain_entry(old(self).layers@, *input, k, rr, cc)
                },
            r.wf(),
            r.height == input.height,
            r.width == old(self).layers@[old(self).layers.len() - 1].weights_t.width,
            !r.transposed,
            forall|rr: int, cc: int|
                0 <= rr < r.height && 0 <= cc < r.width ==> r.entry(rr, cc) == chain_entry(
                    old(self).layers@,
                    *input,
                    old(self).layers.len() - 1,
                    rr,
                    cc,
                ),
            final(self).input == old(self).input,
            final(self).input_label == old(self).input_label,
            final(self).softmax_output == old(self).softmax_output,
            final(self).d_score == old(self).d_score,
            final(self).d_zs == old(self).d_zs,
            final(self).d_ws == old(self).d_ws,
            final(self).d_bs == old(self).d_bs,
            final(self).layers_debug == old(self).layers_debug,
            final(self).data_loss == old(self).data_loss,
            final(self).reg_loss == old(self).reg_loss,
            final(self).loss == old(self).loss,
            !debug ==> final(self).itermediate_evaluation_results == old(
                self,
            ).itermediate_evaluation_results,
            debug ==> crate::layers::opt_vec_len(final(self).itermediate_evaluation_results)
                == crate::layers::opt_vec_len(old(self).itermediate_evaluation_results) + old(
                self,
            ).layers.len(),
    {
        let ghost pre_layers: Seq<Layer> = self.layers@;
        let mut current: Matrix = input.clone();
        let mut index: usize = 0;
        while index < self.layers.len()
            invariant
                chain_ok(pre_layers, *input),
                self.layers.len() == pre_layers.len(),
                self.lambda == old(self).lambda,
                self.optimizer == old(self).optimizer,
                index <= pre_layers.len(),
                forall|k: int|
                    0 <= k < pre_layers.len() ==> {
                        let post = #[trigger] self.layers@[k];
                        let pre = pre_layers[k];
                        &&& post.weights_t == pre.weights_t
                        &&& post.biases == pre.biases
                        &&& post.activation == pre.activation
                        &&& post.first_moment_weight == pre.first_moment_weight
                        &&& post.first_moment_biase == pre.first_moment_biase
                        &&& post.second_moment_weight == pre.second_moment_weight
                        &&& post.second_moment_biase == pre.second_moment_biase
                    },
                forall|k: int| index <= k < pre_layers.len() ==> #[trigger] self.layers@[k].output
                    == pre_layers[k].output,
                forall|k: int|
                    0 <= k < index ==> {
                        let out = (#[trigger] self.layers@[k]).output;
                        &&& out.wf()
                        &&& out.height == input.height
                        &&& out.width == pre_layers[k].weights_t.width
                        &&& !out.transposed
                        &&& forall|rr: int, cc: int|
                            0 <= rr < out.height && 0 <= cc < out.width ==> out.entry(rr, cc)
                                == chain_entry(pre_layers, *input, k, rr, cc)
                    },
                current.wf(),
                index > 0 ==> !current.transposed,
                current.height == input.height,
                current.width == if index == 0 {
                    input.width as int
                } else {
                    pre_layers[index - 1].weights_t.width as int
                },
                forall|rr: int, cc: int|
                    0 <= rr < current.height && 0 <= cc < current.width ==> current.entry(rr, cc)
                        == chain_entry(pre_layers, *input, index - 1, rr, cc),
                self.input == old(self).input,
                self.input_label == old(self).input_label,
                self.softmax_output == old(self).softmax_output,
                self.d_score == old(self).d_score,
                self.d_zs == old(self).d_zs,
                self.d_ws == old(self).d_ws,
                self.d_bs == old(self).d_bs,
                self.layers_debug == old(self).layers_debug,
                self.data_loss == old(self).data_loss,
                self.reg_loss == old(self).reg_loss,
                self.loss == old(self).loss,
                !debug ==> self.itermediate_evaluation_results == old(
                    self,
                ).itermediate_evaluation_results,
                debug ==> crate::layers::opt_vec_len(self.itermediate_evaluation_results)
                    == crate::layers::opt_vec_len(old(self).itermediate_evaluation_results)
                    + index,
            decreases self.layers.len() - index,
        {
            let ghost layers_before: Seq<Layer> = self.layers@;
            let mut layer: Layer = self.layers.remove(index);
            let out: Matrix = layer.forward(&current, false);
            self.layers.insert(index, layer);
            proof {
                assert(self.layers@ =~= layers_before.update(index as int, layer));
                lemma_forward_chain_connect(
                    pre_layers,
                    *input,
                    index as int,
                    layers_before[index as int],
                    current,
                    out,
                );
                let cached = self.layers@[index as int].output;
                assert forall|rr: int, cc: int|
                    0 <= rr < cached.height && 0 <= cc < cached.width implies cached.entry(rr, cc)
                    == out.entry(rr, cc) by {
                    assert(cached.index_of(rr, cc) == out.index_of(rr, cc));
                }
            }
            if debug {
                crate::layers::capture_push(
                    &mut self.itermediate_evaluation_results,
                    out.clone(),
                );
            }
            current = out;
            index = index + 1;
        }
        current
    }

    /// Backward pass over the whole model: walk the layers from the output
    /// to the input, hand each its arriving gradient, and let it step its
    /// parameters with the optimizer; the iteration counter is shared by the
    /// whole model and advances once per mini-batch, in the caller.
    #[verifier::rlimit(100)]
    pub fn update_params(&mut self, d_score: Matrix, input: Matrix, iteration: i32, debug: bool)
        requires
            update_chain_ok(
                old(self).layers@,
                d_score,
                input,
                old(self).optimizer,
                iteration,
            ),
        ensures
            final(self).layers.len() == old(self).layers.len(),
            final(self).lambda == old(self).lambda,
            final(self).optimizer == old(self).optimizer,
            forall|k: int|
                0 <= k < old(self).layers.len() ==> crate::layers::weights_step(
                    old(self).layers@[k],
                    #[trigger] final(self).layers@[k],
                    |i: int| model_dw_entry(
                        old(self).layers@,
                        d_score,
                        input,
                        k,
                        old(self).lambda,
                        i,
                    ),
                    old(self).optimizer,
                    iteration,
                ),
            forall|k: int|
                0 <= k < old(self).layers.len() ==> crate::layers::biases_step(
                    old(self).layers@[k],
                    #[trigger] final(self).layers@[k],
                    |j: int| model_db_entry(old(self).layers@, d_score, k, j),
                    old(self).optimizer,
                    iteration,
                ),
            forall|k: int|
                0 <= k < old(self).layers.len() ==> (#[trigger] final(self).layers@[k]).activation
                    == old(self).layers@[k].activation && final(self).layers@[k].output
                    == old(self).layers@[k].output,
            final(self).input == old(self).input,
            final(self).input_label == old(self).input_label,
            final(self).itermediate_evaluation_results == old(
                self,
            ).itermediate_evaluation_results,
            final(self).softmax_output == old(self).softmax_output,
            final(self).d_score == old(self).d_score,
            final(self).layers_debug == old(self).layers_debug,
            final(self).data_loss == old(self).data_loss,
            final(self).reg_loss == old(self).reg_loss,
            final(self).loss == old(self).loss,
            !debug ==> final(self).d_ws == old(self).d_ws,
            !debug ==> final(self).d_bs == old(self).d_bs,
            !debug ==> final(self).d_zs == old(self).d_zs,
            debug ==> crate::layers::opt_vec_len(final(self).d_ws) == crate::layers::opt_vec_len(
                old(self).d_ws,
            ) + old(self).layers.len(),
            debug ==> crate::layers::opt_vec_len(final(self).d_bs) == crate::layers::opt_vec_len(
                old(self).d_bs,
            ) + old(self).layers.len(),
            debug ==> crate::layers::opt_vec_len(final(self).d_zs) == crate::layers::opt_vec_len(
                old(self).d_zs,
            ) + old(self).layers.len(),
    {
        let ghost pre_layers: Seq<Layer> = self.layers@;
        let ghost ds: Matrix = d_score;
        let mut d_z: Matrix = d_score;
        let mut idx: usize = self.layers.len();
        while idx > 0
            invariant
                update_chain_ok(pre_layers, ds, input, old(self).optimizer, iteration),
                self.layers.len() == pre_layers.len(),
                self.lambda == old(self).lambda,
                self.optimizer == old(self).optimizer,
                idx <= pre_layers.len(),
                forall|k: int| 0 <= k < idx ==> #[trigger] self.layers@[k] == pre_layers[k],
                forall|k: int|
                    idx <= k < pre_layers.len() ==> crate::layers::weights_step(
                        pre_layers[k],
                        #[trigger] self.layers@[k],
                        |i: int| model_dw_entry(pre_layers, ds, input, k, old(self).lambda, i),
                        old(self).optimizer,
                        iteration,
                    ),
                forall|k: int|
                    idx <= k < pre_layers.len() ==> crate::layers::biases_step(
                        pre_layers[k],
                        #[trigger] self.layers@[k],
                        |j: int| model_db_entry(pre_layers, ds, k, j),
                        old(self).optimizer,
                        iteration,
                    ),
                forall|k: int|
                    idx <= k < pre_layers.len() ==> (#[trigger] self.layers@[k]).activation
                        == pre_layers[k].activation && self.layers@[k].output
                        == pre_layers[k].output,
                d_z.wf(),
                !d_z.transposed,
                d_z.height == ds.height,
                idx > 0 ==> d_z.width == pre_layers[idx - 1].weights_t.width,
                idx > 0 ==> forall|rr: int, cc: int|
                    0 <= rr < d_z.height && 0 <= cc < d_z.width ==> d_z.entry(rr, cc) == dz_entry(
                        pre_layers,
                        ds,
                        idx - 1,
                        rr,
                        cc,
                    ),
                self.input == old(self).input,
                self.input_label == old(self).input_label,
                self.itermediate_evaluation_results == old(self).itermediate_evaluation_results,
                self.softmax_output == old(self).softmax_output,
                self.d_score == old(self).d_score,
                self.layers_debug == old(self).layers_debug,
                self.data_loss == old(self).data_loss,
                self.reg_loss == old(self).reg_loss,
                self.loss == old(self).loss,
                !debug ==> self.d_ws == old(self).d_ws,
                !debug ==> self.d_bs == old(self).d_bs,
                !debug ==> self.d_zs == old(self).d_zs,
                debug ==> crate::layers::opt_vec_len(self.d_ws) == crate::layers::opt_vec_len(
                    old(self).d_ws,
                ) + (pre_layers.len() - idx),
                debug ==> crate::layers::opt_vec_len(self.d_bs) == crate::layers::opt_vec_len(
                    old(self).d_bs,
                ) + (pre_layers.len() - idx),
                debug ==> crate::layers::opt_vec_len(self.d_zs) == crate::layers::opt_vec_len(
                    old(self).d_zs,
                ) + (pre_layers.len() - idx),
            decreases idx,
        {
            let index: usize = idx - 1;
            let z_prev: Matrix = if index > 0 {
                self.layers[index - 1].output.clone()
            } else {
                input.clone()
            };
            let prev_act: bool = if index > 0 {
                self.layers[index - 1].activation
            } else {
                false
            };
            proof {
                assert(z_prev.height == z_before(pre_layers, input, index as int).height);
                assert forall|rr: int, cc: int| #[trigger]
                    z_prev.entry(rr, cc) == z_before(pre_layers, input, index as int).entry(
                    rr,
                    cc,
                ) by {
                    assert(z_prev.index_of(rr, cc) == z_before(
                        pre_layers,
                        input,
                        index as int,
                    ).index_of(rr, cc));
                }
            }
            let ghost layers_before: Seq<Layer> = self.layers@;
            let mut layer: Layer = self.layers.remove(index);
            let lambda: u64 = self.lambda;
            let optimizer: Optimizer = self.optimizer;
            let new_dz: Matrix = layer.backprop(
                &d_z,
                &z_prev,
                prev_act,
                lambda,
                &optimizer,
                iteration,
                index == 0,
                debug,
                &mut self.d_ws,
                &mut self.d_bs,
                &mut self.d_zs,
            );
            let ghost pre_layer: Layer = pre_layers[index as int];
            proof {
                // the computed weight gradient equals the chain-level one
                assert forall|i: int|
                    0 <= i < pre_layer.weights_t.data.len() implies crate::layers::dw_entry(
                    pre_layer,
                    d_z,
                    z_prev,
                    lambda,
                    i,
                ) == model_dw_entry(pre_layers, ds, input, index as int, lambda, i) by {
                    let w = pre_layer.weights_t.width as int;
                    if w == 0 {
                        let hh = pre_layer.weights_t.height as int;
                        assert(hh * 0 == 0) by (nonlinear_arith);
                    }
                    lemma_dw_dot_equals(
                        pre_layers,
                        ds,
                        input,
                        index as int,
                        z_prev,
                        d_z,
                        i / w,
                        i % w,
                        ds.height as nat,
                    );
                }
                crate::layers::lemma_weights_step_congruent(
                    pre_layer,
                    layer,
                    |i: int| crate::layers::dw_entry(pre_layer, d_z, z_prev, lambda, i),
                    |i: int| model_dw_entry(pre_layers, ds, input, index as int, lambda, i),
                    optimizer,
                    iteration,
                );
                // the computed bias gradient equals the chain-level one
                assert(d_z.data@ =~= dz_data(pre_layers, ds, index as int)) by {
                    assert forall|i: int| 0 <= i < d_z.data.len() implies d_z.data[i] == dz_entry(
                        pre_layers,
                        ds,
                        index as int,
                        i / (d_z.width as int),
                        i % (d_z.width as int),
                    ) by {
                        if d_z.width == 0 {
                            let hh = d_z.height as int;
                            assert(hh * 0 == 0) by (nonlinear_arith);
                        }
                        crate::matrix::lemma_flat_entry(d_z, i);
                        assert(d_z.data[i] == d_z.entry(
                            i / (d_z.width as int),
                            i % (d_z.width as int),
                        ));
                    }
                }
                assert forall|j: int|
                    0 <= j < pre_layer.biases.data.len() implies crate::layers::db_entry(
                    d_z,
                    j,
                ) == model_db_entry(pre_layers, ds, index as int, j) by {
                    assert(d_z.data@ == dz_data(pre_layers, ds, index as int));
                }
                crate::layers::lemma_biases_step_congruent(
                    pre_layer,
                    layer,
                    |j: int| crate::layers::db_entry(d_z, j),
                    |j: int| model_db_entry(pre_layers, ds, index as int, j),
                    optimizer,
                    iteration,
                );
            }
            self.layers.insert(index, layer);
            proof {
                assert(self.layers@ =~= layers_before.update(index as int, layer));
                if index > 0 {
                    assert forall|rr: int, cc: int|
                        0 <= rr < new_dz.height && 0 <= cc < new_dz.width implies new_dz.entry(
                        rr,
                        cc,
                    ) == dz_entry(pre_layers, ds, index - 1, rr, cc) by {
                        lemma_dz_dot_equals(
                            pre_layers,
                            ds,
                            index - 1,
                            d_z,
                            rr,
                            cc,
                            pre_layer.weights_t.width as nat,
                        );
                    }
                }
            }
            d_z = new_dz;
            idx = index;
        }
    }

    pub fn init(layers: Vec<Layer>, optimizer: Optimizer, lambda: u64) -> (r: Model)
        ensures
            r.layers == layers,
            r.lambda == lambda,
            r.optimizer == optimizer,
            r.layers_debug is None,
            r.input is None,
            r.input_label is None,
            r.itermediate_evaluation_results is None,
            r.softmax_output is None,
            r.data_loss is None,
            r.reg_loss is None,
            r.loss is None,
            r.d_score is None,
            r.d_zs is None,
            r.d_ws is None,
            r.d_bs is None,
    {
        Model {
            layers,
            lambda,
            optimizer,
            layers_debug: None,
            input: None,
            input_label: None,
            itermediate_evaluation_results: None,
            softmax_output: None,
            data_loss: None,
            reg_loss: None,
            loss: None,
            d_score: None,
            d_zs: None,
            d_ws: None,
            d_bs: None,
        }
    }

    /// Gradient of the cross-entropy loss with respect to the pre-softmax
    /// score: subtract one at the labelled class of each row, copy everything
    /// else.  By the engine's convention the result is not divided by the
    /// batch size.
    pub fn compute_d_score(score: &Matrix, labels: &Matrix) -> (r: Matrix)
        requires
            score.wf(),
            labels.wf(),
            labels.height == 1,
            labels.width >= score.height,
        ensures
            r.wf(),
            r.height == score.height,
            r.width == score.width,
            !r.transposed,
            forall|rr: int, cc: int|
                0 <= rr < score.height && 0 <= cc < score.width
                    ==> r.entry(rr, cc) == if feq(labels.entry(0, rr), ffrom_uint(cc as u64)) {
                        fsub(score.entry(rr, cc), ONE_BITS)
                    } else {
                        score.entry(rr, cc)
                    },
    {
        let mut output: Matrix = Matrix::init_zero(score.height, score.width);
        let mut rr: usize = 0;
        while rr < score.height
            invariant
                score.wf(),
                labels.wf(),
                labels.height == 1,
                labels.width >= score.height,
                output.wf(),
                output.height == score.height,
                output.width == score.width,
                !output.transposed,
                rr <= score.height,
                forall|r2: int, c2: int|
                    0 <= r2 < rr && 0 <= c2 < score.width
                        ==> output.entry(r2, c2) == if feq(
                            labels.entry(0, r2),
                            ffrom_uint(c2 as u64),
                        ) {
                            fsub(score.entry(r2, c2), ONE_BITS)
                        } else {
                            score.entry(r2, c2)
                        },
            decreases score.height - rr,
        {
            let label: u64 = labels.get(0, rr);
            let mut cc: usize = 0;
            while cc < score.width
                invariant
                    score.wf(),
                    labels.wf(),
                    labels.height == 1,
                    labels.width >= score.height,
                    output.wf(),
                    output.height == score.height,
                    output.width == score.width,
                    !output.transposed,
                    rr < score.height,
                    cc <= score.width,
                    label == labels.entry(0, rr as int),
                    forall|r2: int, c2: int|
                        0 <= r2 < rr && 0 <= c2 < score.width
                            ==> output.entry(r2, c2) == if feq(
                                labels.entry(0, r2),
                                ffrom_uint(c2 as u64),
                            ) {
                                fsub(score.entry(r2, c2), ONE_BITS)
                            } else {
                                score.entry(r2, c2)
                            },
                    forall|c2: int|
                        0 <= c2 < cc
                            ==> output.entry(rr as int, c2) == if feq(
                                labels.entry(0, rr as int),
                                ffrom_uint(c2 as u64),
                            ) {
                                fsub(score.entry(rr as int, c2), ONE_BITS)
                            } else {
                                score.entry(rr as int, c2)
                            },
                decreases score.width - cc,
            {
                if bits_eq(label, uint_bits(cc as u64)) {
                    let v: u64 = sub_bits(score.get(rr, cc), ONE_BITS);
                    output.set(v, rr, cc);
                } else {
                    let v: u64 = score.get(rr, cc);
                    output.set(v, rr, cc);
                }
                cc = cc + 1;
            }
            rr = rr + 1;
        }
        output
    }

    /// For each row of `score`, the column index of the winning entry,
    /// converted to binary64, as a 1-row matrix.
    pub fn evaluation_output(score: &Matrix) -> (r: Matrix)
        requires
            score.wf(),
        ensures
            r.wf(),
            r.height == 1,
            r.width == score.height,
            !r.transposed,
            forall|rr: int|
                0 <= rr < score.height ==> r.data[rr] == ffrom_uint(
                    argmax_index(*score, rr) as u64,
                ),
    {
        proof {
            assert(1 * (score.height as int) == score.height as int) by (nonlinear_arith);
        }
        let mut output: Matrix = Matrix::init_zero(1, score.height);
        let mut rr: usize = 0;
        while rr < score.height
            invariant
                score.wf(),
                output.wf(),
                output.height == 1,
                output.width == score.height,
                !output.transposed,
                output.data.len() == score.height,
                rr <= score.height,
                forall|r2: int|
                    0 <= r2 < rr ==> output.data[r2] == ffrom_uint(
                        argmax_index(*score, r2) as u64,
                    ),
            decreases score.height - rr,
        {
            let mut best_index: usize = 0;
            let mut best: u64 = POS_ZERO;
            let mut cc: usize = 0;
            while cc < score.width
                invariant
                    score.wf(),
                    rr < score.height,
                    cc <= score.width,
                    best_index < score.width || best_index == 0,
                    (best_index as int, best) == argmax_acc(*score, rr as int, cc as nat),
                decreases score.width - cc,
            {
                let v: u64 = score.get(rr, cc);
                if bits_lt(best, v) {
                    best_index = cc;
                    best = v;
                }
                cc = cc + 1;
            }
            let encoded: u64 = crate::arith::uint_bits(best_index as u64);
            output.set_1d(encoded, rr);
            rr = rr + 1;
        }
        output
    }

    /// Fraction of rows whose predicted class index equals the label,
    /// computed as the binary64 quotient of the two counts.
    pub fn accuracy(&mut self, score: &Matrix, labels: &Matrix) -> (r: u64)
        requires
            score.wf(),
            labels.wf(),
            labels.height == 1,
            labels.width >= score.height,
        ensures
            *final(self) == *old(self),
            r == fdiv(
                ffrom_uint(acc_matches(*score, *labels, score.height as nat) as u64),
                ffrom_uint(score.height as u64),
            ),
    {
        let answer: Matrix = Model::evaluation_output(score);
        let mut sum: usize = 0;
        let mut i: usize = 0;
        while i < answer.width
            invariant
                score.wf(),
                labels.wf(),
                labels.height == 1,
                labels.width >= score.height,
                answer.wf(),
                answer.height == 1,
                answer.width == score.height,
                !answer.transposed,
                answer.data.len() == score.height,
                forall|r2: int|
                    0 <= r2 < score.height ==> answer.data[r2] == ffrom_uint(
                        argmax_index(*score, r2) as u64,
                    ),
                i <= answer.width,
                sum <= i,
                sum == acc_matches(*score, *labels, i as nat),
            decreases answer.width - i,
        {
            proof {
                crate::matrix::lemma_entry_flat(answer, 0, i as int);
            }
            if bits_eq(answer.get(0, i), labels.get(0, i)) {
                sum = sum + 1;
            }
            i = i + 1;
        }
        div_bits(uint_bits(sum as u64), uint_bits(answer.width as u64))
    }
}

impl Clone for Model {
    fn clone(&self) -> (r: Model)
        ensures
            r.layers.len() == self.layers.len(),
            forall|k: int|
                0 <= k < self.layers.len() ==> crate::layers::layer_like(
                    #[trigger] r.layers@[k],
                    self.layers@[k],
                ),
            r.lambda == self.lambda,
            r.optimizer == self.optimizer,
    {
        let mut layers: Vec<Layer> = Vec::new();
        let mut i: usize = 0;
        while i < self.layers.len()
            invariant
                i <= self.layers.len(),
                layers.len() == i,
                forall|k: int|
                    0 <= k < i ==> crate::layers::layer_like(
                        #[trigger] layers@[k],
                        self.layers@[k],
                    ),
            decreases self.layers.len() - i,
        {
            layers.push(self.layers[i].clone());
            i = i + 1;
        }
        Model {
            layers,
            lambda: self.lambda,
            optimizer: self.optimizer,
            layers_debug: self.layers_debug.clone(),
            input: self.input.clone(),
            input_label: self.input_label.clone(),
            itermediate_evaluation_results: self.itermediate_evaluation_results.clone(),
            softmax_output: self.softmax_output.clone(),
            data_loss: self.data_loss,
            reg_loss: self.reg_loss,
            loss: self.loss,
            d_score: self.d_score.clone(),
            d_zs: self.d_zs.clone(),
            d_ws: self.d_ws.clone(),
            d_bs: self.d_bs.clone(),
        }
    }
}

} // verus!
