use vstd::prelude::*;

verus! {

/// The ways a relay operation can end without success.
#[derive(Clone, Copy, Debug, PartialEq, Eq, Structural)]
pub enum Error {
    /// The remote chain refused a submission or could not answer a query.
    RemoteRejected,
    /// A hash read back from the remote chain could not be decoded.
    DecodeFailure,
    /// A shutdown signal ended a wait before anything was submitted.
    Cancelled,
}

} // verus!
