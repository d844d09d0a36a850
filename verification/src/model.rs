//! The regressor's architecture: a fully connected stack described as
//! layer dimensions.
//!
//! The model maps an encoded address row (64 feature slots) to one scalar
//! value prediction through eight linear layers, with an activation that
//! clips negatives to zero after every layer, the output included. The
//! numeric backend instantiates the layers from the dimensions produced
//! here; their floating-point parameters never enter the library.

use vstd::prelude::*;

verus! {

/// The shape of one fully connected layer.
#[derive(Clone, Copy, Debug, PartialEq, Eq, Structural)]
pub struct LayerDims {
    pub in_features: usize,
    pub out_features: usize,
}

/// Configuration of the regressor: the width of its input row and of its
/// output.
#[derive(Clone, Copy, Debug, PartialEq, Eq, Structural)]
pub struct ModelConfig {
    pub input_size: usize,
    pub output_size: usize,
}

/// The eight-layer stack for a configuration: input width to 32, then
/// through the hidden widths 128, 128, 128, 128, 512, 128, down to the
/// output width.
pub open spec fn layer_dims_spec(c: ModelConfig) -> Seq<LayerDims> {
    seq![
        LayerDims { in_features: c.input_size, out_features: 32 },
        LayerDims { in_features: 32, out_features: 128 },
        LayerDims { in_features: 128, out_features: 128 },
        LayerDims { in_features: 128, out_features: 128 },
        LayerDims { in_features: 128, out_features: 128 },
        LayerDims { in_features: 128, out_features: 512 },
        LayerDims { in_features: 512, out_features: 128 },
        LayerDims { in_features: 128, out_features: c.output_size },
    ]
}

impl ModelConfig {
    pub fn new(input_size: usize, output_size: usize) -> (r: ModelConfig)
        ensures
            r == (ModelConfig { input_size, output_size }),
    {
        ModelConfig { input_size, output_size }
    }

    /// The layer dimensions the numeric backend builds the regressor from:
    /// exactly the eight-layer stack of `layer_dims_spec`, first layer fed
    /// by the input row, last layer producing the output, consecutive
    /// layers matching in width.
    pub fn init(&self) -> (dims: Vec<LayerDims>)
        ensures
            dims@ == layer_dims_spec(*self),
            dims@.len() == 8,
            dims@[0].in_features == self.input_size,
            dims@[7].out_features == self.output_size,
            forall|i: int|
                0 <= i < 7 ==> (#[trigger] dims@[i]).out_features == dims@[i + 1].in_features,
    {
        let mut dims: Vec<LayerDims> = Vec::new();
        dims.push(LayerDims { in_features: self.input_size, out_features: 32 });
        dims.push(LayerDims { in_features: 32, out_features: 128 });
        dims.push(LayerDims { in_features: 128, out_features: 128 });
        dims.push(LayerDims { in_features: 128, out_features: 128 });
        dims.push(LayerDims { in_features: 128, out_features: 128 });
        dims.push(LayerDims { in_features: 128, out_features: 512 });
        dims.push(LayerDims { in_features: 512, out_features: 128 });
        dims.push(LayerDims { in_features: 128, out_features: self.output_size });
        proof {
            assert(dims@ =~= layer_dims_spec(*self));
        }
        dims
    }
}

} // verus!
