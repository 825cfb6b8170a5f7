use vstd::prelude::*;

verus! {

/// The recoverable failures the hub surfaces to callers. None of them is
/// fatal to the process: each is reported and the hub state stays consistent.
#[derive(Clone, Copy, Debug, PartialEq, Eq, Structural)]
pub enum HubError {
    /// The presented credential names no registered user.
    Unauthorized,
    /// A room with the requested name already exists.
    Conflict,
    /// The addressed room or user does not exist.
    NotFound,
}

impl HubError {
    /// The HTTP status code under which this failure is reported.
    pub fn status_code(&self) -> (code: u16)
        ensures
            code == (match *self {
                HubError::Unauthorized => 401u16,
                HubError::Conflict => 409u16,
                HubError::NotFound => 404u16,
            }),
    {
        match *self {
            HubError::Unauthorized => 401,
            HubError::Conflict => 409,
            HubError::NotFound => 404,
        }
    }
}

} // verus!
