//! The error type of the library.

use vstd::prelude::*;

use crate::util::precision::Precision;

verus! {

/// What went wrong while bytes were taken from a file image.
#[derive(Debug, Clone, Copy, PartialEq, Eq, Structural)]
pub enum IoFault {
    /// The image ends before the bytes that were asked for.
    UnexpectedEof,
}

/// Everything that the library can refuse.
#[derive(Debug)]
#[allow(inconsistent_fields)]
pub enum Error {
    /// The JSON header could not be parsed or printed; the parser's own words say why.
    SerdeJSON(String),
    /// The bytes of a file ran out.
    IOError(IoFault),
    /// A size or an index does not fit in the integer type that has to hold it.
    IntConversion,
    /// An element was addressed outside its container.
    IndexOutOfBounds { idx: usize, max_idx: usize, reason: &'static str },
    /// The tile dimension does not suit the tensor cores that the precision needs.
    HardwareConstraintViolation { precision: Precision, expected: usize, found: u32 },
    /// A parameter that must be FP32 is stored as FP16.
    PrecisionMatch { layer: String, param: String },
    /// There is no kernel that converts between these two precisions.
    UnsupportedTypeCast { from: Precision, to: Precision },
    /// A saved file holds no layer.
    NoLayersFound,
    /// A layer between the first and the last one is missing in a saved file.
    MissingLayer { layer: usize },
    /// A saved layer has no weights.
    MissingWeights { layer: usize },
    /// A saved layer has no biases.
    MissingBiases { layer: usize },
    /// A saved tensor has a data type that is neither F32 nor F16.
    UnrecognizedTensorKey { key: String, dtype: String },
    /// The name of a saved tensor starts like a layer's but goes on differently.
    InvalidTensorName { name: String, reason: &'static str },
    /// The configuration of the network makes no sense.
    InvalidConfiguration { reason: String },
    /// The operation needs a network in training mode.
    TrainingModeRequired { reason: &'static str },
    /// More items were given than memory was reserved for.
    AllocationLimitExceeded { received: usize, max: usize, reason: &'static str },
    /// Two sizes that have to agree do not.
    MismatchedDimensions { reason: &'static str, expected: usize, found: usize },
    /// The batch size is too small for the operation.
    InvalidBatchSize { reason: &'static str },
}

/// What an [`Error`] says, with every text taken as its characters.
#[allow(inconsistent_fields)]
pub enum ErrorView {
    SerdeJSON,
    IOError(IoFault),
    IntConversion,
    IndexOutOfBounds { idx: usize, max_idx: usize, reason: Seq<char> },
    HardwareConstraintViolation { precision: Precision, expected: usize, found: u32 },
    PrecisionMatch { layer: Seq<char>, param: Seq<char> },
    UnsupportedTypeCast { from: Precision, to: Precision },
    NoLayersFound,
    MissingLayer { layer: usize },
    MissingWeights { layer: usize },
    MissingBiases { layer: usize },
    UnrecognizedTensorKey { key: Seq<char>, dtype: Seq<char> },
    InvalidTensorName { name: Seq<char>, reason: Seq<char> },
    InvalidConfiguration { reason: Seq<char> },
    TrainingModeRequired { reason: Seq<char> },
    AllocationLimitExceeded { received: usize, max: usize, reason: Seq<char> },
    MismatchedDimensions { reason: Seq<char>, expected: usize, found: usize },
    InvalidBatchSize { reason: Seq<char> },
}

impl View for Error {
    type V = ErrorView;

    open spec fn view(&self) -> ErrorView {
        match *self {
            Error::SerdeJSON(_) => ErrorView::SerdeJSON,
            Error::IOError(fault) => ErrorView::IOError(fault),
            Error::IntConversion => ErrorView::IntConversion,
            Error::IndexOutOfBounds { idx, max_idx, reason } => ErrorView::IndexOutOfBounds {
                idx,
                max_idx,
                reason: reason@,
            },
            Error::HardwareConstraintViolation { precision, expected, found } =>
                ErrorView::HardwareConstraintViolation { precision, expected, found },
            Error::PrecisionMatch { layer, param } => ErrorView::PrecisionMatch {
                layer: layer@,
                param: param@,
            },
            Error::UnsupportedTypeCast { from, to } => ErrorView::UnsupportedTypeCast { from, to },
            Error::NoLayersFound => ErrorView::NoLayersFound,
            Error::MissingLayer { layer } => ErrorView::MissingLayer { layer },
            Error::MissingWeights { layer } => ErrorView::MissingWeights { layer },
            Error::MissingBiases { layer } => ErrorView::MissingBiases { layer },
            Error::UnrecognizedTensorKey { key, dtype } => ErrorView::UnrecognizedTensorKey {
                key: key@,
                dtype: dtype@,
            },
            Error::InvalidTensorName { name, reason } => ErrorView::InvalidTensorName {
                name: name@,
                reason: reason@,
            },
            Error::InvalidConfiguration { reason } => ErrorView::InvalidConfiguration {
                reason: reason@,
            },
            Error::TrainingModeRequired { reason } => ErrorView::TrainingModeRequired {
                reason: reason@,
            },
            Error::AllocationLimitExceeded { received, max, reason } =>
                ErrorView::AllocationLimitExceeded { received, max, reason: reason@ },
            Error::MismatchedDimensions { reason, expected, found } =>
                ErrorView::MismatchedDimensions { reason: reason@, expected, found },
            Error::InvalidBatchSize { reason } => ErrorView::InvalidBatchSize { reason: reason@ },
        }
    }
}

/// The error of a refused call, `None` where the call succeeded.
pub open spec fn refusal<A>(r: Result<A, Error>) -> Option<ErrorView> {
    match r {
        Ok(_) => None,
        Err(e) => Some(e@),
    }
}

/// The error of a configuration that makes no sense.
pub(crate) fn invalid_configuration(reason: &str) -> (r: Error)
    ensures
        r@ == (ErrorView::InvalidConfiguration { reason: reason@ }),
{
    Error::InvalidConfiguration { reason: reason.to_owned() }
}

/// Narrows a size to the 32 bits that a kernel takes.
pub fn to_u32(x: usize) -> (r: Result<u32, Error>)
    ensures
        x <= u32::MAX ==> (r matches Ok(v) && v == x),
        x > u32::MAX ==> refusal(r) == Some(ErrorView::IntConversion),
{
    match u32::try_from(x) {
        Ok(v) => Ok(v),
        Err(_) => Err(Error::IntConversion),
    }
}

} // verus!
