use vstd::prelude::*;

verus! {

/// The error kinds the pipeline core surfaces to its driver. None is retried
/// internally; retry or skip policy belongs to a supervising layer.
#[derive(Clone, Debug, PartialEq, Eq)]
pub enum Error {
    /// The source cannot be reached, at bootstrap or mid-stream.
    ConnectivityError { details: String },
    /// A received record could not be parsed into the event model.
    DecodeError { details: String },
    /// A push was attempted after the buffer was closed for shutdown.
    ClosedBufferError,
    /// The metadata bootstrap against the source's catalog failed.
    CatalogBootstrapError { details: String },
}

impl Error {
    /// Only the closed-buffer condition is an expected termination signal;
    /// every other kind is fatal to the pipeline run.
    pub fn is_fatal(&self) -> (r: bool)
        ensures
            r == !(*self matches Error::ClosedBufferError),
    {
        match self {
            Error::ClosedBufferError => false,
            _ => true,
        }
    }
}

} // verus!
