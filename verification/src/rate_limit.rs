//! The rate limiter's answer to a check: the limiter's verdict, labelled
//! with the request it is about.

use vstd::prelude::*;

verus! {

/// The answer to a rate-limit check.
#[derive(Debug)]
pub struct RateLimitReply {
    pub request_id: String,
    pub allowed: bool,
}

/// Answers a check: the request is allowed exactly when the limiter let it
/// through (`within_limit`), and the answer carries the request's identifier.
pub fn check_request(request_id: &String, within_limit: bool) -> (r: RateLimitReply)
    ensures
        r.request_id@ == request_id@,
        r.allowed == within_limit,
{
    if within_limit {
        RateLimitReply { request_id: request_id.clone(), allowed: true }
    } else {
        RateLimitReply { request_id: request_id.clone(), allowed: false }
    }
}

} // verus!
