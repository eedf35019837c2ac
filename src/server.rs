use vstd::prelude::*;
use crate::error::HttpError;

verus! {

/// A server that can be started and stopped by its owner.
pub trait Server {
    /// Serves until the listener ends.
    fn start(&self) -> Result<(), HttpError>;

    /// Stops serving.
    fn stop(&self) -> Result<(), HttpError>;
}

} // verus!
