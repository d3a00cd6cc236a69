//! Feed forward and convolutional networks for a GPU: the layers, the passes through them, and their
//! files.
//!
//! The library decides what the device has to do and queues it; see [`io::device`].

pub mod conv;
pub mod ffn;
pub mod io;
pub mod layers;
pub mod mlp;
pub mod nn;
pub mod util;

pub use conv::{ConvBlock, ConvForwardCache, ConvNormCache};
pub use ffn::FeedForwardNetwork;
pub use mlp::DenseBlock;
pub use util::context::{LayerInitConfig, LossConfig, MultiLayerTrainContext, TrainContext};
pub use util::function::{
    Activation, ConvAlgorithm, KernelConfig, LossFunc, Normalisation, Optimiser, PaddingType,
    PoolingType, Regularisation,
};
pub use util::init::{
    InitFunc, InitHeNormalFunc, InitHeUniformFunc, InitXavierNormalFunc, InitXavierUniformFunc,
    InitZeroFunc,
};
pub use util::precision::{Precision, PrecisionType, F16, F32};
