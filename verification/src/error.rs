//! What can go wrong, and how a failure is shown to the client.

use crate::translate::ClientRequestMalformed;
use vstd::prelude::*;

verus! {

/// Status of a response to a request that the client has to correct.
pub const UNPROCESSABLE_ENTITY: u16 = 422;

/// Status of a response to a request that failed on this side.
pub const INTERNAL_SERVER_ERROR: u16 = 500;

/// A failure of the service.
#[derive(Clone, Copy, Debug, PartialEq, Eq)]
pub enum Failure {
    /// A setting that the service needs is absent. The service does not
    /// start, so no request ever meets this failure.
    ConfigurationMissing,
    /// The Dynmap server could not be reached.
    UpstreamUnavailable,
    /// The Dynmap server's answer could not be read.
    UpstreamMalformed,
    /// The client's request cannot be served as it stands.
    ClientRequestMalformed(ClientRequestMalformed),
    /// The capabilities document could not be written.
    RenderError,
}

impl Failure {
    /// The status of the response that tells the client of a failure: the
    /// client's own mistakes are its to correct, every other failure is this
    /// side's. A missing setting has no status, since it is answered to
    /// nobody.
    pub open spec fn status_spec(self) -> Option<u16> {
        match self {
            Failure::ConfigurationMissing => None,
            Failure::ClientRequestMalformed(_) => Some(UNPROCESSABLE_ENTITY),
            _ => Some(INTERNAL_SERVER_ERROR),
        }
    }

    /// The status of the response that tells the client of this failure.
    pub fn status(&self) -> (status: Option<u16>)
        ensures
            status == self.status_spec(),
            status == Some(422u16) <==> self is ClientRequestMalformed,
            status is None <==> self is ConfigurationMissing,
            status matches Some(code) ==> code == 422 || 500 <= code < 600,
    {
        match self {
            Failure::ConfigurationMissing => None,
            Failure::ClientRequestMalformed(_) => Some(UNPROCESSABLE_ENTITY),
            _ => Some(INTERNAL_SERVER_ERROR),
        }
    }
}

} // verus!
