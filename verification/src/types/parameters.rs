//! The parameters of a model, and what prediction, scoring and training make
//! of them: the relations between what goes into each and what may come out.

use vstd::prelude::*;
use crate::arithmetic::Arithmetic;
use crate::binary32::{clamped, is_unit_fraction, negated, Binary32, MINUS_ONE, ONE, TINY, ZERO};
use crate::constants::{INPUT_SIZE, OUTPUT_SIZE};
use crate::types::model::EpochMetrics;
use crate::types::vector::{argmax_of, is_dot, is_total, Vector};

verus! {

/// What a model holds, and what a checkpoint records: a row of weights for
/// each class, a bias for each class, and the number of epochs trained.
pub struct Parameters {
    pub weights: Seq<Seq<Binary32>>,
    pub bias: Seq<Binary32>,
    pub epoch: nat,
}

impl Parameters {
    /// These parameters form a model: there is at least one class, one bias
    /// for each class, and all rows are of one length.
    pub open spec fn shaped(self) -> bool {
        &&& self.weights.len() > 0
        &&& self.bias.len() == self.weights.len()
        &&& forall|c: int|
            0 <= c < self.weights.len() ==> (#[trigger] self.weights[c]).len()
                == self.weights[0].len()
    }

    /// The number of output classes.
    pub open spec fn classes(self) -> nat {
        self.weights.len()
    }

    /// The number of input features.
    pub open spec fn features(self) -> nat {
        self.weights[0].len()
    }
}

/// The vectors of `v`, each by its elements.
pub open spec fn rows(v: Seq<Vector>) -> Seq<Seq<Binary32>> {
    Seq::new(v.len(), |i: int| v[i]@)
}

/// The rows of a checkpoint, each by its elements.
pub open spec fn plain_rows(v: Seq<Vec<Binary32>>) -> Seq<Seq<Binary32>> {
    Seq::new(v.len(), |i: int| v[i]@)
}

/// `z` may be the scores of `x`: `dots` holds the dot product of each row of
/// weights with `x`, and `z` the sum of each with the bias of its class.
pub open spec fn is_logits<O: Arithmetic>(
    ops: &O,
    p: Parameters,
    x: Seq<Binary32>,
    dots: Seq<Binary32>,
    z: Seq<Binary32>,
) -> bool {
    &&& dots.len() == p.weights.len()
    &&& z.len() == p.weights.len()
    &&& forall|c: int|
        0 <= c < p.weights.len() ==> is_dot(ops, p.weights[c], x, #[trigger] dots[c])
    &&& forall|c: int| 0 <= c < p.weights.len() ==> ops.is_sum(dots[c], p.bias[c], #[trigger] z[c])
}

/// `r` may be the softmax of `z`: each element of `r` is the exponential of
/// the element of `z`, over the sum of all the exponentials.
pub open spec fn is_softmax<O: Arithmetic>(ops: &O, z: Seq<Binary32>, r: Seq<Binary32>) -> bool {
    exists|e: Seq<Binary32>, t: Binary32|
        #![trigger is_total(ops, e, t)]
        {
            &&& e.len() == z.len()
            &&& r.len() == z.len()
            &&& forall|i: int| 0 <= i < z.len() ==> ops.is_exp(z[i], #[trigger] e[i])
            &&& is_total(ops, e, t)
            &&& forall|i: int| 0 <= i < z.len() ==> ops.is_quotient(e[i], t, #[trigger] r[i])
        }
}

/// `r` may be what a model with parameters `p` predicts for `x`: the
/// softmax of the scores.
pub open spec fn is_prediction<O: Arithmetic>(
    ops: &O,
    p: Parameters,
    x: Seq<Binary32>,
    r: Seq<Binary32>,
) -> bool {
    exists|dots: Seq<Binary32>, z: Seq<Binary32>|
        #![trigger is_logits(ops, p, x, dots, z)]
        is_logits(ops, p, x, dots, z) && is_softmax(ops, z, r)
}

/// The probability `p` held within `[1e-12, 1]`.
pub open spec fn clipped(p: Binary32) -> Binary32 {
    clamped(p, TINY, ONE)
}

/// `t` may be what one class adds to the loss: `-y * ln(clip(p))`.
pub open spec fn is_loss_term<O: Arithmetic>(ops: &O, y: Binary32, p: Binary32, t: Binary32) -> bool {
    exists|l: Binary32|
        #![trigger ops.is_ln(clipped(p), l)]
        ops.is_ln(clipped(p), l) && ops.is_product(negated(y), l, t)
}

/// `r` may be the loss of the prediction `p` against the target `y`: the
/// terms of all classes, added from the first to the last, over the number
/// of classes.
pub open spec fn is_loss<O: Arithmetic>(ops: &O, y: Seq<Binary32>, p: Seq<Binary32>, r: Binary32) -> bool {
    exists|terms: Seq<Binary32>, total: Binary32, n: Binary32|
        #![trigger is_total(ops, terms, total), ops.is_quotient(total, n, r)]
        {
            &&& terms.len() == y.len()
            &&& forall|i: int| 0 <= i < y.len() ==> is_loss_term(ops, y[i], p[i], #[trigger] terms[i])
            &&& is_total(ops, terms, total)
            &&& ops.is_conversion(y.len() as usize, n)
            &&& ops.is_quotient(total, n, r)
        }
}

/// `g` may be the gradient of the loss with respect to the scores:
/// `clip(p) - y` in each class.
pub open spec fn is_loss_gradient<O: Arithmetic>(
    ops: &O,
    y: Seq<Binary32>,
    p: Seq<Binary32>,
    g: Seq<Binary32>,
) -> bool {
    &&& g.len() == y.len()
    &&& forall|i: int| 0 <= i < y.len() ==> ops.is_difference(clipped(p[i]), y[i], #[trigger] g[i])
}

/// `x` has one element for each feature and `y` one for each class.
pub open spec fn fits(p: Parameters, x: Seq<Binary32>, y: Seq<Binary32>) -> bool {
    x.len() == p.features() && y.len() == p.classes()
}

/// Each of the first `n` examples fits.
pub open spec fn all_fit(
    p: Parameters,
    xs: Seq<Seq<Binary32>>,
    ys: Seq<Seq<Binary32>>,
    n: nat,
) -> bool {
    forall|k: int| 0 <= k < n ==> fits(p, #[trigger] xs[k], ys[k])
}

/// Whether the prediction `p` names the class that the target `y` names.
pub open spec fn agree(y: Seq<Binary32>, p: Seq<Binary32>) -> bool {
    argmax_of(y) == argmax_of(p)
}

/// `loss` and `hit` may be the loss and the correctness of what parameters
/// `p` predict for the example `x` with target `y`.
pub open spec fn is_score<O: Arithmetic>(
    ops: &O,
    p: Parameters,
    x: Seq<Binary32>,
    y: Seq<Binary32>,
    loss: Binary32,
    hit: bool,
) -> bool {
    exists|out: Seq<Binary32>|
        #![trigger is_loss(ops, y, out, loss)]
        is_prediction(ops, p, x, out) && is_loss(ops, y, out, loss) && hit == agree(y, out)
}

/// `r` may be the weight `w` after a step against the gradient `g` of its
/// class, for the feature `x`: the product `x * g`, held within `[-1, 1]`,
/// times `rate`, taken off `w`.
pub open spec fn is_weight_step<O: Arithmetic>(
    ops: &O,
    w: Binary32,
    x: Binary32,
    g: Binary32,
    rate: Binary32,
    r: Binary32,
) -> bool {
    exists|raw: Binary32, step: Binary32|
        #![trigger ops.is_product(x, g, raw), ops.is_difference(w, step, r)]
        ops.is_product(x, g, raw) && ops.is_product(clamped(raw, MINUS_ONE, ONE), rate, step)
            && ops.is_difference(w, step, r)
}

/// `r` may be the bias `b` after a step against the gradient `g` of its
/// class: `g`, held within `[-1, 1]`, times `rate`, taken off `b`.
pub open spec fn is_bias_step<O: Arithmetic>(
    ops: &O,
    b: Binary32,
    g: Binary32,
    rate: Binary32,
    r: Binary32,
) -> bool {
    exists|step: Binary32|
        #![trigger ops.is_difference(b, step, r)]
        ops.is_product(clamped(g, MINUS_ONE, ONE), rate, step) && ops.is_difference(b, step, r)
}

/// `after` may be `before` with every weight and every bias moved one step
/// against the gradient `g`, for the features `x`. The epoch stays.
pub open spec fn is_update<O: Arithmetic>(
    ops: &O,
    before: Parameters,
    x: Seq<Binary32>,
    g: Seq<Binary32>,
    rate: Binary32,
    after: Parameters,
) -> bool {
    &&& after.epoch == before.epoch
    &&& after.weights.len() == before.weights.len()
    &&& after.bias.len() == before.bias.len()
    &&& forall|c: int|
        0 <= c < before.weights.len() ==> (#[trigger] after.weights[c]).len()
            == before.weights[c].len()
    &&& forall|c: int, j: int|
        0 <= c < before.weights.len() && 0 <= j < before.weights[c].len() ==> is_weight_step(
            ops,
            before.weights[c][j],
            x[j],
            g[c],
            rate,
            #[trigger] after.weights[c][j],
        )
    &&& forall|c: int|
        0 <= c < before.bias.len() ==> is_bias_step(
            ops,
            before.bias[c],
            g[c],
            rate,
            #[trigger] after.bias[c],
        )
}

/// `after`, `loss` and `hit` may come of training `before` on the example
/// `x` with target `y`: the prediction is made and scored with the
/// parameters `before`, and every parameter then moves one step against the
/// gradient of the loss.
pub open spec fn is_fit<O: Arithmetic>(
    ops: &O,
    before: Parameters,
    x: Seq<Binary32>,
    y: Seq<Binary32>,
    rate: Binary32,
    after: Parameters,
    loss: Binary32,
    hit: bool,
) -> bool {
    exists|out: Seq<Binary32>, g: Seq<Binary32>|
        #![trigger is_loss(ops, y, out, loss), is_update(ops, before, x, g, rate, after)]
        {
            &&& is_prediction(ops, before, x, out)
            &&& is_loss(ops, y, out, loss)
            &&& hit == agree(y, out)
            &&& is_loss_gradient(ops, y, out, g)
            &&& is_update(ops, before, x, g, rate, after)
        }
}

/// One for a hit, nothing for a miss.
pub open spec fn credit(hit: bool) -> nat {
    if hit {
        1
    } else {
        0
    }
}

/// `end`, `total` and `hits` may come of training `start` on the first `n`
/// examples, one after the other: `total` is the sum of their losses, added
/// in that order onto `+0.0`, and `hits` the number of correct predictions.
pub open spec fn is_pass<O: Arithmetic>(
    ops: &O,
    start: Parameters,
    xs: Seq<Seq<Binary32>>,
    ys: Seq<Seq<Binary32>>,
    n: nat,
    rate: Binary32,
    end: Parameters,
    total: Binary32,
    hits: nat,
) -> bool
    decreases n,
{
    if n == 0 {
        end == start && total == ZERO && hits == 0
    } else {
        exists|mid: Parameters, subtotal: Binary32, loss: Binary32, hit: bool|
            #![trigger is_fit(ops, mid, xs[n - 1], ys[n - 1], rate, end, loss, hit), ops.is_sum(subtotal, loss, total)]
            {
                &&& hits >= credit(hit)
                &&& is_pass(
                    ops,
                    start,
                    xs,
                    ys,
                    (n - 1) as nat,
                    rate,
                    mid,
                    subtotal,
                    (hits - credit(hit)) as nat,
                )
                &&& is_fit(ops, mid, xs[n - 1], ys[n - 1], rate, end, loss, hit)
                &&& ops.is_sum(subtotal, loss, total)
            }
    }
}

/// `end` may be what is left of `start` where training stops at the first
/// of `n` examples that does not fit: the examples before it were trained
/// on, that one and those after it were not.
pub open spec fn is_broken_pass<O: Arithmetic>(
    ops: &O,
    start: Parameters,
    xs: Seq<Seq<Binary32>>,
    ys: Seq<Seq<Binary32>>,
    n: nat,
    rate: Binary32,
    end: Parameters,
) -> bool {
    exists|k: nat, total: Binary32, hits: nat|
        #![trigger is_pass(ops, start, xs, ys, k, rate, end, total, hits)]
        {
            &&& k < n
            &&& all_fit(start, xs, ys, k)
            &&& !fits(start, xs[k as int], ys[k as int])
            &&& is_pass(ops, start, xs, ys, k, rate, end, total, hits)
        }
}

/// `total` and `hits` may be the summed loss and the number of correct
/// predictions of parameters `p` on the first `n` examples.
pub open spec fn is_assessment<O: Arithmetic>(
    ops: &O,
    p: Parameters,
    xs: Seq<Seq<Binary32>>,
    ys: Seq<Seq<Binary32>>,
    n: nat,
    total: Binary32,
    hits: nat,
) -> bool
    decreases n,
{
    if n == 0 {
        total == ZERO && hits == 0
    } else {
        exists|subtotal: Binary32, loss: Binary32, hit: bool|
            #![trigger is_score(ops, p, xs[n - 1], ys[n - 1], loss, hit), ops.is_sum(subtotal, loss, total)]
            {
                &&& hits >= credit(hit)
                &&& is_assessment(ops, p, xs, ys, (n - 1) as nat, subtotal, (hits - credit(hit)) as nat)
                &&& is_score(ops, p, xs[n - 1], ys[n - 1], loss, hit)
                &&& ops.is_sum(subtotal, loss, total)
            }
    }
}

/// `r` may be the mean loss: `total` over the number of examples `n`.
pub open spec fn is_mean<O: Arithmetic>(ops: &O, total: Binary32, n: usize, r: Binary32) -> bool {
    exists|count: Binary32|
        #![trigger ops.is_quotient(total, count, r)]
        ops.is_conversion(n, count) && ops.is_quotient(total, count, r)
}

/// `r` may be the accuracy: `+0.0` where nothing was predicted correctly,
/// and `hits` over the number of examples `n` otherwise.
pub open spec fn is_accuracy<O: Arithmetic>(ops: &O, hits: usize, n: usize, r: Binary32) -> bool {
    if hits == 0 {
        r == ZERO
    } else {
        exists|correct: Binary32, count: Binary32|
            #![trigger ops.is_quotient(correct, count, r)]
            ops.is_conversion(hits, correct) && ops.is_conversion(n, count) && ops.is_quotient(
                correct,
                count,
                r,
            )
    }
}

/// `loss` and `accuracy` may be what parameters `p` score on the first `n`
/// of `count` examples: the mean of the losses and the share of correct
/// predictions.
pub open spec fn is_evaluation<O: Arithmetic>(
    ops: &O,
    p: Parameters,
    xs: Seq<Seq<Binary32>>,
    ys: Seq<Seq<Binary32>>,
    n: nat,
    count: usize,
    loss: Binary32,
    accuracy: Binary32,
) -> bool {
    exists|total: Binary32, hits: usize|
        #![trigger is_mean(ops, total, count, loss), is_accuracy(ops, hits, count, accuracy)]
        {
            &&& is_assessment(ops, p, xs, ys, n, total, hits as nat)
            &&& is_mean(ops, total, count, loss)
            &&& is_accuracy(ops, hits, count, accuracy)
        }
}

/// `report` may be what an epoch reports that ends with the epoch counter at
/// `epoch`, after `hits` correct predictions and a summed loss of `total`
/// over `n` examples.
pub open spec fn is_report<O: Arithmetic>(
    ops: &O,
    epoch: nat,
    total: Binary32,
    hits: usize,
    n: usize,
    report: EpochMetrics,
) -> bool {
    &&& report.epoch == epoch
    &&& is_mean(ops, total, n, report.loss)
    &&& is_accuracy(ops, hits, n, report.accuracy)
}

/// `p` with one epoch more on its counter.
pub open spec fn advanced(p: Parameters) -> Parameters {
    Parameters { epoch: p.epoch + 1, ..p }
}

/// `end` and `reports` may come of training `start` for `epochs` epochs on
/// the first `n` of `count` examples: each epoch is a pass over the examples
/// in their order, starts from the parameters that the epoch before ended
/// with, adds one to the epoch counter, and reports.
pub open spec fn is_training<O: Arithmetic>(
    ops: &O,
    start: Parameters,
    xs: Seq<Seq<Binary32>>,
    ys: Seq<Seq<Binary32>>,
    n: nat,
    count: usize,
    epochs: nat,
    rate: Binary32,
    end: Parameters,
    reports: Seq<EpochMetrics>,
) -> bool
    decreases epochs,
{
    if epochs == 0 {
        end == start && reports.len() == 0
    } else {
        &&& reports.len() == epochs
        &&& exists|mid: Parameters, trained: Parameters, total: Binary32, hits: usize|
            #![trigger is_pass(ops, mid, xs, ys, n, rate, trained, total, hits as nat)]
            {
                &&& is_training(
                    ops,
                    start,
                    xs,
                    ys,
                    n,
                    count,
                    (epochs - 1) as nat,
                    rate,
                    mid,
                    reports.drop_last(),
                )
                &&& is_pass(ops, mid, xs, ys, n, rate, trained, total, hits as nat)
                &&& end == advanced(trained)
                &&& is_report(ops, end.epoch, total, hits, count, reports.last())
            }
    }
}

/// The lesser of two lengths: the number of examples that have a target.
pub open spec fn pairs(xs: nat, ys: nat) -> nat {
    if xs <= ys {
        xs
    } else {
        ys
    }
}

/// `p` are the parameters of the model that the words `words` select and
/// that was never trained: the weights are the numbers in `[0, 1)` that the
/// upper 24 bits of the words stand for, class after class and, within a
/// class, feature after feature; the bias is zero.
pub open spec fn is_initial(words: Seq<u32>, p: Parameters) -> bool {
    &&& p.weights.len() == OUTPUT_SIZE
    &&& forall|c: int| 0 <= c < OUTPUT_SIZE ==> (#[trigger] p.weights[c]).len() == INPUT_SIZE
    &&& forall|c: int, j: int|
        0 <= c < OUTPUT_SIZE && 0 <= j < INPUT_SIZE ==> is_unit_fraction(
            (words[c * INPUT_SIZE + j] >> 8) as int,
            #[trigger] p.weights[c][j],
        )
    &&& p.bias == Seq::new(OUTPUT_SIZE as nat, |i: int| ZERO)
    &&& p.epoch == 0
}

/// An assessment in which no prediction can name the class of its target
/// counts no hit.
proof fn lemma_assessment_without_hits<O: Arithmetic>(
    ops: &O,
    p: Parameters,
    xs: Seq<Seq<Binary32>>,
    ys: Seq<Seq<Binary32>>,
    n: nat,
    total: Binary32,
    hits: nat,
)
    requires
        is_assessment(ops, p, xs, ys, n, total, hits),
        forall|k: int, out: Seq<Binary32>|
            0 <= k < n && #[trigger] is_prediction(ops, p, xs[k], out) ==> !agree(ys[k], out),
    ensures
        hits == 0,
    decreases n,
{
    if n > 0 {
        let (subtotal, loss, hit) = choose|subtotal: Binary32, loss: Binary32, hit: bool|
            #![trigger is_score(ops, p, xs[n - 1], ys[n - 1], loss, hit), ops.is_sum(subtotal, loss, total)]
            {
                &&& hits >= credit(hit)
                &&& is_assessment(
                    ops,
                    p,
                    xs,
                    ys,
                    (n - 1) as nat,
                    subtotal,
                    (hits - credit(hit)) as nat,
                )
                &&& is_score(ops, p, xs[n - 1], ys[n - 1], loss, hit)
                &&& ops.is_sum(subtotal, loss, total)
            };
        lemma_assessment_without_hits(
            ops,
            p,
            xs,
            ys,
            (n - 1) as nat,
            subtotal,
            (hits - credit(hit)) as nat,
        );
    }
}

/// Where no prediction that the parameters can make for an example names
/// the class of its target, the accuracy is `+0.0`: nothing is divided.
pub proof fn lemma_accuracy_without_hits<O: Arithmetic>(
    ops: &O,
    p: Parameters,
    xs: Seq<Seq<Binary32>>,
    ys: Seq<Seq<Binary32>>,
    n: nat,
    count: usize,
    loss: Binary32,
    accuracy: Binary32,
)
    requires
        is_evaluation(ops, p, xs, ys, n, count, loss, accuracy),
        forall|k: int, out: Seq<Binary32>|
            0 <= k < n && #[trigger] is_prediction(ops, p, xs[k], out) ==> !agree(ys[k], out),
    ensures
        accuracy == ZERO,
{
    let (total, hits) = choose|total: Binary32, hits: usize|
        #![trigger is_mean(ops, total, count, loss), is_accuracy(ops, hits, count, accuracy)]
        {
            &&& is_assessment(ops, p, xs, ys, n, total, hits as nat)
            &&& is_mean(ops, total, count, loss)
            &&& is_accuracy(ops, hits, count, accuracy)
        };
    lemma_assessment_without_hits(ops, p, xs, ys, n, total, hits as nat);
}

} // verus!
