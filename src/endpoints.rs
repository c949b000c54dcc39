//! Decisions of the HTTP endpoints: the symbol store proxy, status polls,
//! and what a symbolication request tells the diagnostic scope.
use vstd::prelude::*;

use crate::requests::{PollAction, RequestState};
use crate::text::{decimal, to_decimal};

verus! {

/// Why the symbol store proxy failed.
#[derive(Clone, Copy, Debug, PartialEq, Eq, Structural)]
pub enum ProxyErrorKind {
    /// The object could not be written out.
    Io,
    /// The object could not be downloaded.
    Fetching,
}

/// What looking up the object behind a proxied path came to.
#[derive(Clone, Copy, Debug, PartialEq, Eq, Structural)]
pub enum ProxyLookup {
    /// The path does not name an object of a known layout.
    BadPath,
    /// The lookup failed.
    Failed(ProxyErrorKind),
    /// No source holds the object, or the object is empty.
    Missing,
    /// The object, of this many bytes.
    Found(u64),
}

/// The proxy's answer.
#[derive(Clone, Copy, Debug, PartialEq, Eq, Structural)]
pub enum ProxyResponse {
    NotFound,
    InternalError,
    /// Status 200 with this content length, and the bytes unless the request
    /// was a `HEAD`.
    Object { content_length: u64, with_body: bool },
}

/// Answers a symbol store request: not found while the proxy is off, for a
/// path that names no object, and for an object that no source holds.
pub fn get_symstore_proxy(enabled: bool, lookup: ProxyLookup, is_head: bool) -> (r: ProxyResponse)
    ensures
        r == if !enabled {
            ProxyResponse::NotFound
        } else {
            match lookup {
                ProxyLookup::BadPath => ProxyResponse::NotFound,
                ProxyLookup::Failed(_) => ProxyResponse::InternalError,
                ProxyLookup::Missing => ProxyResponse::NotFound,
                ProxyLookup::Found(n) => if n == 0 {
                    ProxyResponse::NotFound
                } else {
                    ProxyResponse::Object { content_length: n, with_body: !is_head }
                },
            }
        },
{
    if !enabled {
        return ProxyResponse::NotFound;
    }
    match lookup {
        ProxyLookup::BadPath => ProxyResponse::NotFound,
        ProxyLookup::Failed(_) => ProxyResponse::InternalError,
        ProxyLookup::Missing => ProxyResponse::NotFound,
        ProxyLookup::Found(n) => if n == 0 {
            ProxyResponse::NotFound
        } else {
            ProxyResponse::Object { content_length: n, with_body: !is_head }
        },
    }
}

/// The HTTP status of the answer to a status poll, once any wait is over: 404
/// for a request that is not found, 200 otherwise.
pub fn get_request(action: PollAction) -> (r: u16)
    ensures
        r == if action == PollAction::NotFound {
            404u16
        } else {
            200u16
        },
{
    match action {
        PollAction::NotFound => 404,
        _ => 200,
    }
}

/// The status word that a symbolication response carries.
pub fn status_word(state: RequestState) -> (r: &'static str)
    ensures
        r@ == match state {
            RequestState::Pending => "pending"@,
            RequestState::Completed => "completed"@,
            RequestState::Failed => "failed"@,
        },
{
    match state {
        RequestState::Pending => "pending",
        RequestState::Completed => "completed",
        RequestState::Failed => "failed",
    }
}

/// One tag of a diagnostic scope.
pub struct Tag {
    pub key: String,
    pub value: String,
}

/// A computation bound to the diagnostic hub that its work reports to.
pub struct SentryFuture<F, H> {
    pub hub: H,
    pub inner: F,
}

/// Binds a computation to a diagnostic hub.
pub trait SentryFutureExt: Sized {
    fn bind_hub<H>(self, hub: H) -> (r: SentryFuture<Self, H>)
        ensures
            r.inner == self,
            r.hub == hub,
    ;
}

impl<F> SentryFutureExt for F {
    fn bind_hub<H>(self, hub: H) -> (r: SentryFuture<F, H>) {
        SentryFuture { hub, inner: self }
    }
}

/// Writes what is useful for debugging of a value to a diagnostic scope.
pub trait WriteSentryScope {
    fn write_sentry_scope(&self, scope: &mut Vec<Tag>);
}

/// Query parameters of a symbolication request.
pub struct SymbolicationRequestQueryParams {
    /// Seconds to wait for the result before answering "pending".
    pub timeout: Option<u64>,
    /// The tenant whose caches the request uses.
    pub scope: String,
}

impl SymbolicationRequestQueryParams {
    /// The tags of the request: its scope, and its timeout or "none".
    pub fn sentry_tags(&self) -> (r: Vec<Tag>)
        ensures
            r@.len() == 2,
            r@[0].key@ == "request.scope"@,
            r@[0].value@ == self.scope@,
            r@[1].key@ == "request.timeout"@,
            r@[1].value@ == match self.timeout {
                Some(t) => decimal(t as nat),
                None => "none"@,
            },
    {
        let mut r: Vec<Tag> = Vec::new();
        r.push(Tag { key: String::from_str("request.scope"), value: self.scope.clone() });
        let value = match self.timeout {
            Some(t) => to_decimal(t),
            None => String::from_str("none"),
        };
        r.push(Tag { key: String::from_str("request.timeout"), value });
        r
    }
}

impl WriteSentryScope for SymbolicationRequestQueryParams {
    fn write_sentry_scope(&self, scope: &mut Vec<Tag>) {
        let mut tags = self.sentry_tags();
        scope.append(&mut tags);
    }
}

} // verus!
