//! How an API response's status is read before its body.
use vstd::prelude::*;

verus! {

/// The classes of HTTP status the client tells apart.
#[derive(Clone, Copy, Debug, PartialEq, Eq, Structural)]
pub enum StatusClass {
    /// 2xx: the request succeeded.
    Success,
    /// 4xx: the request was refused; the body may give a reason.
    Client,
    /// 503: the service is temporarily unavailable.
    Unavailable,
    /// Anything else.
    Other,
}

/// The class of a status code.
pub open spec fn class_of(code: u16) -> StatusClass {
    if 200 <= code <= 299 {
        StatusClass::Success
    } else if 400 <= code <= 499 {
        StatusClass::Client
    } else if code == 503 {
        StatusClass::Unavailable
    } else {
        StatusClass::Other
    }
}

/// Classifies a status code.
pub fn classify_status(code: u16) -> (r: StatusClass)
    ensures
        r == class_of(code),
{
    if 200 <= code && code <= 299 {
        StatusClass::Success
    } else if 400 <= code && code <= 499 {
        StatusClass::Client
    } else if code == 503 {
        StatusClass::Unavailable
    } else {
        StatusClass::Other
    }
}

} // verus!
