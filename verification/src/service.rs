//! The two services whose operations the library provides.
use vstd::prelude::*;

verus! {

/// Rooms, retrospectives, answers, comments and the checks on what users send.
pub struct RetrospectService;

/// Subscription plans and payments.
pub struct PaymentService;

} // verus!
