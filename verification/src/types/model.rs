//! The classifier: one weight vector per class and a bias, trained by
//! gradient descent on one example at a time, and its checkpoint form.

use rand::Rng;
use vstd::prelude::*;
use crate::arithmetic::Arithmetic;
use crate::binary32::{
    clamp, clamped, is_unit_fraction, neg, unit_interval, Binary32, MINUS_ONE, ONE, TINY, ZERO,
};
use crate::constants::{INPUT_SIZE, OUTPUT_SIZE, WEIGHTS};
use crate::failure::Failure;
use crate::types::parameters::{
    advanced, all_fit, clipped, credit, fits, is_accuracy, is_assessment, is_bias_step,
    is_broken_pass, is_evaluation, is_fit, is_initial, is_logits, is_loss,
    is_loss_gradient, is_loss_term, is_mean, is_pass, is_prediction, is_report, is_score,
    is_softmax, is_training, is_update, is_weight_step, pairs, plain_rows, rows, Parameters,
};
use crate::types::vector::{is_dot, is_total, Vector};

verus! {

/// A word from the generator of the running thread.
///
/// Calls `rand::thread_rng` and, on what it returns, `rand::Rng::gen` for a
/// `u32`. Nothing is claimed of the word: it may be any.
#[verifier::external_body]
fn random_word() -> (word: u32) {
    rand::thread_rng().gen::<u32>()
}

/// What one epoch of training reports.
#[derive(Clone, Copy, Debug, PartialEq, Eq, Structural)]
pub struct EpochMetrics {
    /// The number of epochs trained, this one included.
    pub epoch: usize,
    /// The mean loss over the examples.
    pub loss: Binary32,
    /// The share of examples that were predicted correctly.
    pub accuracy: Binary32,
}

/// A softmax classifier: `softmax(W x + b)` over the rows `W` and the bias
/// `b`.
pub struct Model {
    weights: Vec<Vector>,
    bias: Vector,
    epoch: usize,
}

impl View for Model {
    type V = Parameters;

    closed spec fn view(&self) -> Parameters {
        Parameters { weights: rows(self.weights@), bias: self.bias@, epoch: self.epoch as nat }
    }
}

impl Model {
    #[verifier::type_invariant]
    spec fn well_formed(self) -> bool {
        self@.shaped()
    }

    /// The model that `words` select.
    fn assemble(words: &Vec<u32>) -> (m: Self)
        requires
            words.len() == WEIGHTS,
        ensures
            is_initial(words@, m@),
            forall|c: int, j: int|
                0 <= c < OUTPUT_SIZE && 0 <= j < INPUT_SIZE ==> #[trigger] m@.weights[c][j] < ONE,
    {
        let mut weights: Vec<Vector> = Vec::with_capacity(OUTPUT_SIZE);
        let mut c: usize = 0;
        while c < OUTPUT_SIZE
            invariant
                words.len() == WEIGHTS,
                c <= OUTPUT_SIZE,
                weights.len() == c,
                forall|k: int| 0 <= k < c ==> (#[trigger] weights@[k])@.len() == INPUT_SIZE,
                forall|k: int, j: int|
                    0 <= k < c && 0 <= j < INPUT_SIZE ==> is_unit_fraction(
                        (words@[k * INPUT_SIZE + j] >> 8) as int,
                        #[trigger] weights@[k]@[j],
                    ) && weights@[k]@[j] < ONE,
            decreases OUTPUT_SIZE - c,
        {
            let first = c * INPUT_SIZE;
            let mut data: Vec<Binary32> = Vec::with_capacity(INPUT_SIZE);
            let mut j: usize = 0;
            while j < INPUT_SIZE
                invariant
                    first + INPUT_SIZE <= words.len(),
                    j <= INPUT_SIZE,
                    data.len() == j,
                    forall|i: int|
                        0 <= i < j ==> is_unit_fraction(
                            (words@[first + i] >> 8) as int,
                            #[trigger] data@[i],
                        ) && data@[i] < ONE,
                decreases INPUT_SIZE - j,
            {
                data.push(unit_interval(words[first + j]));
                j += 1;
            }
            weights.push(Vector::from_data(data));
            c += 1;
        }
        Self { weights, bias: Vector::zeroed(OUTPUT_SIZE), epoch: 0 }
    }

    /// The model that `words` select and that was never trained: of
    /// `OUTPUT_SIZE` classes over `INPUT_SIZE` features, each weight the
    /// number in `[0, 1)` that its word stands for, the bias zero. Fails
    /// where there is not one word for each weight.
    pub fn from_words(words: &Vec<u32>) -> (r: Result<Self, Failure>)
        ensures
            words.len() != WEIGHTS ==> r.is_err() && r->Err_0 == Failure::ShapeMismatch,
            words.len() == WEIGHTS ==> r is Ok && is_initial(words@, r->Ok_0@) && forall|
                c: int,
                j: int,
            |
                0 <= c < OUTPUT_SIZE && 0 <= j < INPUT_SIZE ==> #[trigger] r->Ok_0@.weights[c][j] < ONE,
    {
        if words.len() != WEIGHTS {
            Err(Failure::ShapeMismatch)
        } else {
            Ok(Self::assemble(words))
        }
    }

    /// A model of `OUTPUT_SIZE` classes over `INPUT_SIZE` features that was
    /// never trained: each weight drawn from `[0, 1)`, the bias zero.
    pub fn new() -> (m: Self)
        ensures
            exists|words: Seq<u32>| #[trigger] is_initial(words, m@),
            forall|c: int, j: int|
                0 <= c < OUTPUT_SIZE && 0 <= j < INPUT_SIZE ==> #[trigger] m@.weights[c][j] < ONE,
    {
        let mut words: Vec<u32> = Vec::with_capacity(WEIGHTS);
        let mut i: usize = 0;
        while i < WEIGHTS
            invariant
                i <= WEIGHTS,
                words.len() == i,
            decreases WEIGHTS - i,
        {
            words.push(random_word());
            i += 1;
        }
        Self::assemble(&words)
    }

    /// The softmax of `x`.
    fn softmax<O: Arithmetic>(x: Vector, ops: &O) -> (r: Vector)
        ensures
            r@.len() == x@.len(),
            is_softmax(ops, x@, r@),
    {
        let e = x.exp(ops);
        let t = e.sum(ops);
        let r = e.divide_scalar(t, ops);
        r
    }

    /// The probabilities of the classes for the features `x`. Fails where
    /// `x` has not one element for each feature.
    pub fn predict<O: Arithmetic>(&self, x: &Vector, ops: &O) -> (r: Result<Vector, Failure>)
        ensures
            x@.len() != self@.features() ==> r == Err::<Vector, Failure>(Failure::ShapeMismatch),
            x@.len() == self@.features() ==> r is Ok && r->Ok_0@.len() == self@.classes()
                && is_prediction(ops, self@, x@, r->Ok_0@),
    {
        proof {
            use_type_invariant(self);
        }
        let n = self.weights.len();
        let mut dots: Vec<Binary32> = Vec::with_capacity(n);
        let mut c: usize = 0;
        while c < n
            invariant
                self@.shaped(),
                n == self.weights.len(),
                c <= n,
                dots.len() == c,
                c > 0 ==> x@.len() == self@.features(),
                forall|k: int| 0 <= k < c ==> is_dot(ops, self@.weights[k], x@, #[trigger] dots@[k]),
            decreases n - c,
        {
            assert(self@.weights[c as int].len() == self@.features());
            match self.weights[c].dot(x, ops) {
                Ok(d) => {
                    dots.push(d);
                },
                Err(e) => {
                    return Err(e);
                },
            }
            c += 1;
        }
        let ghost products = dots@;
        match Vector::from_data(dots).add(&self.bias, ops) {
            Ok(z) => {
                assert(is_logits(ops, self@, x@, products, z@));
                Ok(Self::softmax(z, ops))
            },
            Err(e) => Err(e),
        }
    }

    /// The cross-entropy of the prediction `y_pred` against the target
    /// `y_true`, averaged over the classes. Fails where the two differ in
    /// length.
    pub fn loss<O: Arithmetic>(&self, y_true: &Vector, y_pred: &Vector, ops: &O) -> (r: Result<
        Binary32,
        Failure,
    >)
        ensures
            y_true@.len() != y_pred@.len() ==> r == Err::<Binary32, Failure>(
                Failure::ShapeMismatch,
            ),
            y_true@.len() == y_pred@.len() ==> r is Ok && is_loss(ops, y_true@, y_pred@, r->Ok_0),
    {
        let n = y_true.len();
        if y_pred.len() != n {
            return Err(Failure::ShapeMismatch);
        }
        let truth = y_true.to_vec();
        let pred = y_pred.to_vec();
        let mut terms: Vec<Binary32> = Vec::with_capacity(n);
        let mut i: usize = 0;
        while i < n
            invariant
                n == truth.len(),
                n == pred.len(),
                i <= n,
                terms.len() == i,
                forall|k: int|
                    0 <= k < i ==> is_loss_term(ops, truth@[k], pred@[k], #[trigger] terms@[k]),
            decreases n - i,
        {
            let l = ops.ln(clamp(pred[i], TINY, ONE));
            let t = ops.mul(neg(truth[i]), l);
            assert(ops.is_ln(clipped(pred@[i as int]), l));
            terms.push(t);
            i += 1;
        }
        let ghost all = terms@;
        let total = Vector::from_data(terms).sum(ops);
        let count = ops.from_count(n);
        let r = ops.div(total, count);
        Ok(r)
    }

    /// The gradient of the loss with respect to the scores. Fails where
    /// `y_true` and `y_pred` differ in length.
    pub fn loss_deriv<O: Arithmetic>(&self, y_true: &Vector, y_pred: &Vector, ops: &O) -> (r:
        Result<Vector, Failure>)
        ensures
            y_true@.len() != y_pred@.len() ==> r == Err::<Vector, Failure>(Failure::ShapeMismatch),
            y_true@.len() == y_pred@.len() ==> r is Ok && is_loss_gradient(
                ops,
                y_true@,
                y_pred@,
                r->Ok_0@,
            ),
    {
        let n = y_true.len();
        if y_pred.len() != n {
            return Err(Failure::ShapeMismatch);
        }
        let truth = y_true.to_vec();
        let pred = y_pred.to_vec();
        let mut deriv: Vec<Binary32> = Vec::with_capacity(n);
        let mut i: usize = 0;
        while i < n
            invariant
                n == truth.len(),
                n == pred.len(),
                i <= n,
                deriv.len() == i,
                forall|k: int|
                    0 <= k < i ==> ops.is_difference(
                        clipped(pred@[k]),
                        truth@[k],
                        #[trigger] deriv@[k],
                    ),
            decreases n - i,
        {
            let d = ops.sub(clamp(pred[i], TINY, ONE), truth[i]);
            deriv.push(d);
            i += 1;
        }
        Ok(Vector::from_data(deriv))
    }

    /// Each element of `v` held within `[-1, 1]`.
    fn clip_gradient(v: &Vector) -> (r: Vector)
        ensures
            r@.len() == v@.len(),
            forall|i: int| 0 <= i < v@.len() ==> #[trigger] r@[i] == clamped(v@[i], MINUS_ONE, ONE),
    {
        let data = v.to_vec();
        let n = data.len();
        let mut out: Vec<Binary32> = Vec::with_capacity(n);
        let mut i: usize = 0;
        while i < n
            invariant
                n == data.len(),
                i <= n,
                out.len() == i,
                forall|k: int| 0 <= k < i ==> #[trigger] out@[k] == clamped(data@[k], MINUS_ONE, ONE),
            decreases n - i,
        {
            out.push(clamp(data[i], MINUS_ONE, ONE));
            i += 1;
        }
        Vector::from_data(out)
    }

    /// The bias `b` after a step of `rate` against the gradient.
    fn descend<O: Arithmetic>(b: &Vector, gradient: &Vector, rate: Binary32, ops: &O) -> (r:
        Result<Vector, Failure>)
        ensures
            b@.len() != gradient@.len() ==> r == Err::<Vector, Failure>(Failure::ShapeMismatch),
            b@.len() == gradient@.len() ==> r is Ok && r->Ok_0@.len() == b@.len() && forall|i: int|
                0 <= i < b@.len() ==> is_bias_step(
                    ops,
                    b@[i],
                    gradient@[i],
                    rate,
                    #[trigger] r->Ok_0@[i],
                ),
    {
        let step = Self::clip_gradient(gradient).multiply_scalar(rate, ops);
        let r = b.subtract(&step, ops);
        proof {
            if b@.len() == gradient@.len() {
                assert forall|i: int| 0 <= i < b@.len() implies is_bias_step(
                    ops,
                    b@[i],
                    gradient@[i],
                    rate,
                    #[trigger] r->Ok_0@[i],
                ) by {
                }
            }
        }
        r
    }

    /// Trains on one example: predicts, scores the prediction, and moves
    /// every parameter one step against the gradient. Changes nothing where
    /// the example does not fit.
    fn fit<O: Arithmetic>(&mut self, x: &Vector, y: &Vector, rate: Binary32, ops: &O) -> (r:
        Result<(Binary32, bool), Failure>)
        ensures
            final(self)@.shaped(),
            final(self)@.classes() == old(self)@.classes(),
            final(self)@.features() == old(self)@.features(),
            final(self)@.epoch == old(self)@.epoch,
            match r {
                Ok((loss, hit)) => fits(old(self)@, x@, y@) && is_fit(
                    ops,
                    old(self)@,
                    x@,
                    y@,
                    rate,
                    final(self)@,
                    loss,
                    hit,
                ),
                Err(e) => e == Failure::ShapeMismatch && !fits(old(self)@, x@, y@) && final(self)@
                    == old(self)@,
            },
    {
        proof {
            use_type_invariant(&*self);
        }
        let pred = match self.predict(x, ops) {
            Ok(p) => p,
            Err(e) => {
                return Err(e);
            },
        };
        let loss = match self.loss(y, &pred, ops) {
            Ok(l) => l,
            Err(e) => {
                return Err(e);
            },
        };
        let hit = y.argmax() == pred.argmax();
        let grad = match self.loss_deriv(y, &pred, ops) {
            Ok(g) => g,
            Err(e) => {
                return Err(e);
            },
        };
        let n = self.weights.len();
        let ghost before = self@;
        let mut weights: Vec<Vector> = Vec::with_capacity(n);
        let mut c: usize = 0;
        while c < n
            invariant
                before == self@,
                before.shaped(),
                n == self.weights.len(),
                x@.len() == before.features(),
                grad@.len() == n,
                c <= n,
                weights.len() == c,
                forall|k: int| 0 <= k < c ==> (#[trigger] weights@[k])@.len() == before.features(),
                forall|k: int, j: int|
                    0 <= k < c && 0 <= j < before.features() ==> is_weight_step(
                        ops,
                        before.weights[k][j],
                        x@[j],
                        grad@[k],
                        rate,
                        #[trigger] weights@[k]@[j],
                    ),
            decreases n - c,
        {
            assert(before.weights[c as int].len() == before.features());
            let g = grad.to_vec()[c];
            let raw = x.multiply_scalar(g, ops);
            let step = Self::clip_gradient(&raw).multiply_scalar(rate, ops);
            let row = match self.weights[c].subtract(&step, ops) {
                Ok(r) => r,
                Err(e) => {
                    return Err(e);
                },
            };
            assert forall|j: int| 0 <= j < before.features() implies is_weight_step(
                ops,
                before.weights[c as int][j],
                x@[j],
                g,
                rate,
                #[trigger] row@[j],
            ) by {
            }
            weights.push(row);
            c += 1;
        }
        let bias = match Self::descend(&self.bias, &grad, rate, ops) {
            Ok(b) => b,
            Err(e) => {
                return Err(e);
            },
        };
        self.weights = weights;
        self.bias = bias;
        proof {
            assert(is_update(ops, before, x@, grad@, rate, self@));
        }
        Ok((loss, hit))
    }

    /// The mean loss and the accuracy after `hits` correct predictions and a
    /// summed loss of `total` over `n` examples. Where nothing was predicted
    /// correctly the accuracy is `+0.0` and nothing is divided for it.
    fn metrics<O: Arithmetic>(total: Binary32, hits: usize, n: usize, ops: &O) -> (r: (
        Binary32,
        Binary32,
    ))
        ensures
            is_mean(ops, total, n, r.0),
            is_accuracy(ops, hits, n, r.1),
    {
        let count = ops.from_count(n);
        let mean = ops.div(total, count);
        let accuracy = if hits > 0 {
            let correct = ops.from_count(hits);
            let share = ops.div(correct, count);
            share
        } else {
            ZERO
        };
        (mean, accuracy)
    }

    /// Trains on the examples that have a target, in their order, and stops
    /// at the first that does not fit.
    fn pass<O: Arithmetic>(
        &mut self,
        xs: &Vec<Vector>,
        ys: &Vec<Vector>,
        rate: Binary32,
        ops: &O,
    ) -> (r: Result<(Binary32, usize), Failure>)
        ensures
            final(self)@.shaped(),
            final(self)@.classes() == old(self)@.classes(),
            final(self)@.features() == old(self)@.features(),
            final(self)@.epoch == old(self)@.epoch,
            match r {
                Ok((total, hits)) => all_fit(
                    old(self)@,
                    rows(xs@),
                    rows(ys@),
                    pairs(xs@.len(), ys@.len()),
                ) && is_pass(
                    ops,
                    old(self)@,
                    rows(xs@),
                    rows(ys@),
                    pairs(xs@.len(), ys@.len()),
                    rate,
                    final(self)@,
                    total,
                    hits as nat,
                ),
                Err(e) => e == Failure::ShapeMismatch && is_broken_pass(
                    ops,
                    old(self)@,
                    rows(xs@),
                    rows(ys@),
                    pairs(xs@.len(), ys@.len()),
                    rate,
                    final(self)@,
                ),
            },
    {
        proof {
            use_type_invariant(&*self);
        }
        let n = if xs.len() <= ys.len() {
            xs.len()
        } else {
            ys.len()
        };
        let ghost start = self@;
        let ghost features = rows(xs@);
        let ghost targets = rows(ys@);
        let mut total: Binary32 = ZERO;
        let mut hits: usize = 0;
        let mut i: usize = 0;
        while i < n
            invariant
                n == pairs(xs@.len(), ys@.len()),
                features == rows(xs@),
                targets == rows(ys@),
                i <= n,
                hits <= i,
                self@.shaped(),
                start == old(self)@,
                self@.classes() == start.classes(),
                self@.features() == start.features(),
                self@.epoch == start.epoch,
                all_fit(start, features, targets, i as nat),
                is_pass(ops, start, features, targets, i as nat, rate, self@, total, hits as nat),
            decreases n - i,
        {
            let ghost mid = self@;
            let ghost subtotal = total;
            match self.fit(&xs[i], &ys[i], rate, ops) {
                Ok((loss, hit)) => {
                    let next = ops.add(total, loss);
                    if hit {
                        hits = hits + 1;
                    }
                    proof {
                        // The relation names the last of `i + 1` examples by
                        // its index `i + 1 - 1`.
                        assert(is_fit(
                            ops,
                            mid,
                            features[i + 1 - 1],
                            targets[i + 1 - 1],
                            rate,
                            self@,
                            loss,
                            hit,
                        ) && ops.is_sum(subtotal, loss, next));
                    }
                    total = next;
                },
                Err(e) => {
                    return Err(e);
                },
            }
            i += 1;
        }
        Ok((total, hits))
    }

    /// The mean loss and the accuracy of the model on the examples that have
    /// a target. Fails where an example does not fit.
    pub fn evaluate<O: Arithmetic>(&self, test_x: Vec<Vector>, test_y: Vec<Vector>, ops: &O) -> (r:
        Result<(Binary32, Binary32), Failure>)
        ensures
            match r {
                Ok((loss, accuracy)) => all_fit(
                    self@,
                    rows(test_x@),
                    rows(test_y@),
                    pairs(test_x@.len(), test_y@.len()),
                ) && is_evaluation(
                    ops,
                    self@,
                    rows(test_x@),
                    rows(test_y@),
                    pairs(test_x@.len(), test_y@.len()),
                    test_x.len(),
                    loss,
                    accuracy,
                ),
                Err(e) => e == Failure::ShapeMismatch && !all_fit(
                    self@,
                    rows(test_x@),
                    rows(test_y@),
                    pairs(test_x@.len(), test_y@.len()),
                ),
            },
    {
        proof {
            use_type_invariant(self);
        }
        let n = if test_x.len() <= test_y.len() {
            test_x.len()
        } else {
            test_y.len()
        };
        let ghost features = rows(test_x@);
        let ghost targets = rows(test_y@);
        let mut total: Binary32 = ZERO;
        let mut hits: usize = 0;
        let mut i: usize = 0;
        while i < n
            invariant
                n == pairs(test_x@.len(), test_y@.len()),
                features == rows(test_x@),
                targets == rows(test_y@),
                i <= n,
                hits <= i,
                self@.shaped(),
                all_fit(self@, features, targets, i as nat),
                is_assessment(ops, self@, features, targets, i as nat, total, hits as nat),
            decreases n - i,
        {
            let ghost subtotal = total;
            let output = match self.predict(&test_x[i], ops) {
                Ok(p) => p,
                Err(e) => {
                    assert(!fits(self@, features[i as int], targets[i as int]));
                    return Err(e);
                },
            };
            let loss = match self.loss(&test_y[i], &output, ops) {
                Ok(l) => l,
                Err(e) => {
                    assert(!fits(self@, features[i as int], targets[i as int]));
                    return Err(e);
                },
            };
            let hit = test_y[i].argmax() == output.argmax();
            let next = ops.add(total, loss);
            if hit {
                hits = hits + 1;
            }
            proof {
                // The relation names the last of `i + 1` examples by its
                // index `i + 1 - 1`.
                assert(is_score(ops, self@, features[i + 1 - 1], targets[i + 1 - 1], loss, hit)
                    && ops.is_sum(subtotal, loss, next));
            }
            total = next;
            i += 1;
        }
        let (mean, accuracy) = Self::metrics(total, hits, test_x.len(), ops);
        Ok((mean, accuracy))
    }

    /// Trains for `epochs` epochs on the examples that have a target, in
    /// their order, one step for each example, and reports on each epoch.
    /// Stops at the first example that does not fit and leaves the model as
    /// the examples before it made it.
    pub fn train<O: Arithmetic>(
        &mut self,
        train_x: Vec<Vector>,
        train_y: Vec<Vector>,
        epochs: usize,
        learning_rate: Binary32,
        ops: &O,
    ) -> (r: Result<Vec<EpochMetrics>, Failure>)
        requires
            old(self)@.epoch + epochs <= usize::MAX,
        ensures
            final(self)@.shaped(),
            final(self)@.classes() == old(self)@.classes(),
            final(self)@.features() == old(self)@.features(),
            r is Ok ==> final(self)@.epoch == old(self)@.epoch + epochs && r->Ok_0@.len() == epochs,
            r is Err ==> final(self)@.epoch == old(self)@.epoch,
            match r {
                Ok(reports) => (epochs == 0 || all_fit(
                    old(self)@,
                    rows(train_x@),
                    rows(train_y@),
                    pairs(train_x@.len(), train_y@.len()),
                )) && is_training(
                    ops,
                    old(self)@,
                    rows(train_x@),
                    rows(train_y@),
                    pairs(train_x@.len(), train_y@.len()),
                    train_x.len(),
                    epochs as nat,
                    learning_rate,
                    final(self)@,
                    reports@,
                ),
                Err(e) => e == Failure::ShapeMismatch && epochs > 0 && is_broken_pass(
                    ops,
                    old(self)@,
                    rows(train_x@),
                    rows(train_y@),
                    pairs(train_x@.len(), train_y@.len()),
                    learning_rate,
                    final(self)@,
                ),
            },
    {
        proof {
            use_type_invariant(&*self);
        }
        let ghost start = self@;
        let ghost features = rows(train_x@);
        let ghost targets = rows(train_y@);
        let ghost n = pairs(train_x@.len(), train_y@.len());
        let mut reports: Vec<EpochMetrics> = Vec::new();
        let mut done: usize = 0;
        while done < epochs
            invariant
                features == rows(train_x@),
                targets == rows(train_y@),
                n == pairs(train_x@.len(), train_y@.len()),
                done <= epochs,
                start.epoch + epochs <= usize::MAX,
                start == old(self)@,
                self@.shaped(),
                self@.classes() == start.classes(),
                self@.features() == start.features(),
                self@.epoch == start.epoch + done,
                reports.len() == done,
                done > 0 ==> all_fit(start, features, targets, n),
                is_training(
                    ops,
                    start,
                    features,
                    targets,
                    n,
                    train_x.len(),
                    done as nat,
                    learning_rate,
                    self@,
                    reports@,
                ),
            decreases epochs - done,
        {
            let ghost earlier = reports@;
            let (total, hits) = match self.pass(&train_x, &train_y, learning_rate, ops) {
                Ok(outcome) => outcome,
                Err(e) => {
                    return Err(e);
                },
            };
            let (mean, accuracy) = Self::metrics(total, hits, train_x.len(), ops);
            self.epoch = self.epoch + 1;
            let report = EpochMetrics { epoch: self.epoch, loss: mean, accuracy };
            reports.push(report);
            done += 1;
            proof {
                assert(reports@.drop_last() =~= earlier);
            }
        }
        Ok(reports)
    }

    /// The weight vectors, one for each class.
    pub fn weights(&self) -> (r: &Vec<Vector>)
        ensures
            rows(r@) == self@.weights,
            self@.shaped(),
    {
        proof {
            use_type_invariant(self);
        }
        &self.weights
    }

    /// The bias, one element for each class.
    pub fn bias(&self) -> (r: &Vector)
        ensures
            r@ == self@.bias,
    {
        &self.bias
    }

    /// The number of epochs that the model was trained for.
    pub fn epoch(&self) -> (r: usize)
        ensures
            r == self@.epoch,
    {
        self.epoch
    }
}

/// A model laid out flat, as it is written to a document: the field names
/// and their nesting are those of the document.
pub struct DeSerializableModel {
    pub weights: Vec<Vec<Binary32>>,
    pub bias: Vec<Binary32>,
    pub epoch: usize,
}

impl View for DeSerializableModel {
    type V = Parameters;

    open spec fn view(&self) -> Parameters {
        Parameters {
            weights: plain_rows(self.weights@),
            bias: self.bias@,
            epoch: self.epoch as nat,
        }
    }
}

/// The checkpoint of a model with parameters `p`.
pub open spec fn flattened(p: Parameters) -> Parameters {
    p
}

/// The model of a checkpoint with parameters `p`, where they form one.
pub open spec fn restored(p: Parameters) -> Option<Parameters> {
    if p.shaped() {
        Some(p)
    } else {
        None
    }
}

/// A model that goes into a checkpoint comes out of it again with the same
/// weights, bias and epoch.
pub proof fn lemma_checkpoint_round_trip(p: Parameters)
    requires
        p.shaped(),
    ensures
        restored(flattened(p)) == Some(p),
{
}

fn copy_of(v: &Vec<Binary32>) -> (r: Vec<Binary32>)
    ensures
        r@ == v@,
{
    let n = v.len();
    let mut r: Vec<Binary32> = Vec::with_capacity(n);
    let mut i: usize = 0;
    while i < n
        invariant
            n == v.len(),
            i <= n,
            r@ == v@.take(i as int),
        decreases n - i,
    {
        r.push(v[i]);
        i += 1;
    }
    r
}

impl DeSerializableModel {
    /// The checkpoint of `model`: its weights row by row, its bias and its
    /// epoch.
    pub fn from_model(model: &Model) -> (r: Self)
        ensures
            r@ == flattened(model@),
            restored(r@) == Some(model@),
    {
        let rows_in = model.weights();
        let n = rows_in.len();
        let mut weights: Vec<Vec<Binary32>> = Vec::with_capacity(n);
        let mut c: usize = 0;
        while c < n
            invariant
                n == rows_in.len(),
                c <= n,
                weights.len() == c,
                forall|k: int| 0 <= k < c ==> (#[trigger] weights@[k])@ == rows_in@[k]@,
            decreases n - c,
        {
            weights.push(copy_of(rows_in[c].to_vec()));
            c += 1;
        }
        let r = Self { weights, bias: copy_of(model.bias().to_vec()), epoch: model.epoch() };
        assert(r@.weights =~= model@.weights);
        r
    }

    /// Whether the rows and the bias form a model.
    fn is_shaped(&self) -> (r: bool)
        ensures
            r == self@.shaped(),
    {
        let n = self.weights.len();
        if n == 0 || self.bias.len() != n {
            return false;
        }
        let d = self.weights[0].len();
        let mut c: usize = 1;
        while c < n
            invariant
                n == self.weights.len(),
                n > 0,
                1 <= c <= n,
                d == self.weights@[0]@.len(),
                forall|k: int| 0 <= k < c ==> (#[trigger] self.weights@[k])@.len() == d,
            decreases n - c,
        {
            if self.weights[c].len() != d {
                assert(self@.weights[c as int].len() != self@.weights[0].len());
                return false;
            }
            c += 1;
        }
        assert forall|k: int| 0 <= k < self@.weights.len() implies (#[trigger] self@.weights[k]).len()
            == self@.weights[0].len() by {
        }
        true
    }

    /// The model of this checkpoint. Fails where the checkpoint has no row,
    /// where its rows differ in length, and where it has not one bias for
    /// each row.
    pub fn to_model(&self) -> (r: Result<Model, Failure>)
        ensures
            match r {
                Ok(m) => restored(self@) == Some(m@),
                Err(e) => restored(self@).is_none() && e == Failure::MalformedCheckpoint,
            },
    {
        if !self.is_shaped() {
            return Err(Failure::MalformedCheckpoint);
        }
        let n = self.weights.len();
        let mut weights: Vec<Vector> = Vec::with_capacity(n);
        let mut c: usize = 0;
        while c < n
            invariant
                n == self.weights.len(),
                c <= n,
                weights.len() == c,
                forall|k: int| 0 <= k < c ==> (#[trigger] weights@[k])@ == self.weights@[k]@,
            decreases n - c,
        {
            weights.push(Vector::from_data(copy_of(&self.weights[c])));
            c += 1;
        }
        let bias = Vector::from_data(copy_of(&self.bias));
        assert(rows(weights@) =~= self@.weights);
        Ok(Model { weights, bias, epoch: self.epoch })
    }
}

} // verus!
