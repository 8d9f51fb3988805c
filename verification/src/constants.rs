//! The dimensions of a freshly made model.

use vstd::prelude::*;

verus! {

/// Features per example: the pixels of a 28 by 28 image.
pub const INPUT_SIZE: usize = 784;

/// Output classes: the ten digits.
pub const OUTPUT_SIZE: usize = 10;

/// Weights of a model: one for each feature in each class.
pub const WEIGHTS: usize = 7840;

/// A model has a weight for each pair of a class and a feature.
pub proof fn lemma_weights()
    ensures
        WEIGHTS == OUTPUT_SIZE * INPUT_SIZE,
{
}

} // verus!
