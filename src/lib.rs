//! The object resolution and caching core of a symbolication service.
//!
//! Symbol sources are searched along candidate paths (`paths`, `download`),
//! with retries (`retry`) and redirects (`redirect`); what is found is kept in
//! on-disk cache tiers with expiry, negative entries and cleanup (`cache`,
//! `keys`), computed once per key at a time (`singleflight`). Requests are
//! tracked and polled (`requests`), frames placed in modules
//! (`symbolication`), and objects chosen among candidates (`objects`).
use vstd::prelude::*;

pub mod cache;
pub mod cli;
pub mod download;
pub mod endpoints;
pub mod keys;
pub mod metrics;
pub mod objects;
pub mod paths;
pub mod redirect;
pub mod requests;
pub mod retry;
pub mod sentry;
pub mod singleflight;
pub mod symbolication;
pub mod text;

verus! {

} // verus!
