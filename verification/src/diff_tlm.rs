//! The complex linear layer used by the neural fitness predictor of the
//! differentiable transmission line model.

use vstd::prelude::*;

verus! {

/// Complex linear layer for neural networks.
#[derive(Debug, Clone)]
pub struct DenseCLayer<T> {
    /// Weight matrix: [out_features, in_features]
    pub weight: Vec<Vec<T>>,
    /// Bias vector: [out_features]
    pub bias: Vec<T>,
    /// Input dimension
    pub in_features: usize,
    /// Output dimension
    pub out_features: usize,
}

impl<T> DenseCLayer<T> {
    /// The weight matrix is `out_features` rows of `in_features` entries, and
    /// the bias holds `out_features` entries.
    pub open spec fn well_shaped(&self) -> bool {
        &&& self.weight@.len() == self.out_features
        &&& forall|i: int| 0 <= i < self.out_features ==> (#[trigger] self.weight@[i])@.len() == self.in_features
        &&& self.bias@.len() == self.out_features
    }

    /// Every weight and every bias entry equals `value`.
    pub open spec fn filled_with(&self, value: T) -> bool {
        &&& forall|i: int, j: int|
            0 <= i < self.weight@.len() && 0 <= j < self.weight@[i]@.len() ==> #[trigger] self.weight@[i]@[j] == value
        &&& forall|k: int| 0 <= k < self.bias@.len() ==> #[trigger] self.bias@[k] == value
    }
}

impl<T: Clone + Copy + Default> DenseCLayer<T> {
    /// A layer of the given dimensions whose weights and biases all hold the
    /// value `T::default()` returns.
    pub fn new(in_features: usize, out_features: usize) -> (r: Self)
        ensures
            r.in_features == in_features,
            r.out_features == out_features,
            r.well_shaped(),
            exists|value: T| call_ensures(T::default, (), value) && #[trigger] r.filled_with(value),
    {
        let value = T::default();
        let mut weight: Vec<Vec<T>> = Vec::new();
        let mut row_count: usize = 0;
        while row_count < out_features
            invariant
                row_count <= out_features,
                weight@.len() == row_count,
                forall|i: int| 0 <= i < row_count ==> (#[trigger] weight@[i])@.len() == in_features,
                forall|i: int, j: int|
                    0 <= i < row_count && 0 <= j < in_features ==> #[trigger] weight@[i]@[j] == value,
            decreases out_features - row_count,
        {
            let mut row: Vec<T> = Vec::new();
            let mut col: usize = 0;
            while col < in_features
                invariant
                    col <= in_features,
                    row@.len() == col,
                    forall|j: int| 0 <= j < col ==> #[trigger] row@[j] == value,
                decreases in_features - col,
            {
                row.push(value);
                col += 1;
            }
            weight.push(row);
            row_count += 1;
        }
        let mut bias: Vec<T> = Vec::new();
        let mut k: usize = 0;
        while k < out_features
            invariant
                k <= out_features,
                bias@.len() == k,
                forall|j: int| 0 <= j < k ==> #[trigger] bias@[j] == value,
            decreases out_features - k,
        {
            bias.push(value);
            k += 1;
        }
        let r = DenseCLayer { weight, bias, in_features, out_features };
        assert(r.filled_with(value));
        r
    }
}

} // verus!
