use vstd::prelude::*;

verus! {

/// The failures that the service reports to a client.
///
/// Ceremony and session failures collapse to `NotFoundError` and
/// `InvalidSessionError` whatever their cause, so that a client learns
/// nothing about which check failed.
#[derive(Debug, Clone, Copy, PartialEq, Eq, Structural)]
pub enum ApiError {
    /// A resource, a ceremony correlation id or a registration token is
    /// absent, expired, exhausted or owned by someone else.
    NotFoundError,
    /// A session secret was presented and does not validate.
    InvalidSessionError,
    /// The request itself is unacceptable (a reused upload id).
    BadRequestError,
    /// The ceremony verifier rejected a response.
    VerificationError,
    /// Reading or writing blob storage failed.
    StorageError,
    /// Reading or writing the metadata database failed.
    PersistenceError,
}

impl ApiError {
    /// The HTTP status that a client sees for this error.
    pub open spec fn spec_status(self) -> u16 {
        match self {
            ApiError::NotFoundError => 404,
            ApiError::InvalidSessionError => 401,
            ApiError::BadRequestError => 400,
            _ => 500,
        }
    }

    /// Whether a build meant for development may show diagnostic text with
    /// this error; client-facing ceremony and session errors never carry any.
    pub open spec fn spec_has_diagnostics(self) -> bool {
        self.spec_status() == 500
    }

    pub fn status(&self) -> (r: u16)
        ensures
            r == self.spec_status(),
    {
        match self {
            ApiError::NotFoundError => 404,
            ApiError::InvalidSessionError => 401,
            ApiError::BadRequestError => 400,
            _ => 500,
        }
    }

    pub fn has_diagnostics(&self) -> (r: bool)
        ensures
            r == self.spec_has_diagnostics(),
    {
        self.status() == 500
    }
}

} // verus!
