//! Timing of requests: every request is timed but the health check, and each
//! response is counted under its status code.
use vstd::prelude::*;

use crate::text::{decimal, str_eq, to_decimal};

verus! {

/// Wraps a service so that its requests are timed.
#[derive(Clone, Copy, Debug)]
pub struct RequestMetrics;

/// A service whose requests are timed.
pub struct RequestMetricsMiddleware<S> {
    pub service: S,
}

impl RequestMetrics {
    /// Wraps `service`.
    pub fn new_transform<S>(&self, service: S) -> (r: RequestMetricsMiddleware<S>)
        ensures
            r.service == service,
    {
        RequestMetricsMiddleware { service }
    }
}

impl<S> RequestMetricsMiddleware<S> {
    /// Whether a request to `path` is timed: all are, but the health check.
    pub fn is_timed(path: &str) -> (r: bool)
        ensures
            r == (path@ != "/healthcheck"@),
    {
        !str_eq(path, "/healthcheck")
    }

    /// The name of the counter of responses with status `status`.
    pub fn status_metric(status: u16) -> (r: String)
        ensures
            r@ == "responses.status_code."@ + decimal(status as nat),
    {
        String::from_str("responses.status_code.").concat(to_decimal(status as u64).as_str())
    }
}

} // verus!
