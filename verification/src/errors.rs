use vstd::prelude::*;

verus! {

/// Why the store refused a write.
#[derive(Clone, Copy, Debug, PartialEq, Eq, Structural)]
pub enum StorageFault {
    /// The store could not be reached, or failed underneath.
    Unreachable,
    /// The row would say it is closed without carrying every closure fact.
    ConstraintViolation,
    /// The largest store identity has been given out.
    IdentitiesExhausted,
}

/// What an operation can fail with.
#[derive(Debug)]
pub enum ApiError {
    /// No trade is meant by the reference given. The one outcome a caller is
    /// expected to meet and recover from.
    NotFound,
    /// The store refused the write.
    DatabaseError(StorageFault),
    /// No connection to the store could be had.
    PoolError,
    /// Any other fault, with its description.
    InternalServerError(String),
}

impl ApiError {
    /// The HTTP status under which the error is reported: not found for a
    /// missing trade, a server fault for everything else.
    pub open spec fn status(self) -> u16 {
        match self {
            ApiError::NotFound => 404,
            _ => 500,
        }
    }

    pub fn status_code(&self) -> (r: u16)
        ensures
            r == self.status(),
    {
        match self {
            ApiError::NotFound => 404,
            _ => 500,
        }
    }
}

/// Wraps any fault as an internal server error. The description is what
/// `format!` writes for the fault with `{:?}`; of its text nothing is claimed.
#[verifier::external_body]
pub fn internal_error<E: std::fmt::Debug>(err: E) -> (r: ApiError)
    ensures
        r is InternalServerError,
{
    ApiError::InternalServerError(format!("{:?}", err))
}

} // verus!
