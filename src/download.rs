//! What a source's answer means for the download pipeline, and where objects
//! lie within a source.
use vstd::prelude::*;

use crate::cache::age;
use crate::paths::{
    opt_view, candidate_paths, canonical_order, patterns_view, prepare_download_paths, FileType, Layout,
    ObjectId, SourceFilters,
};
use crate::redirect::{
    follow_redirects, follows, forwarded, headers_view, location_view, Header, RedirectStep,
    MAX_HTTP_REDIRECTS,
};
use crate::retry::{backoff_delay, AttemptOutcome, RetryPolicy, RetryStep, BACKOFF_BASE_MS, MAX_ATTEMPTS};

verus! {

/// The answer a source gives with this HTTP status: the object on success,
/// a transport failure on a server error, and absence otherwise.
pub open spec fn outcome_of_status(status: u16) -> AttemptOutcome {
    if 200 <= status <= 299 {
        AttemptOutcome::Found
    } else if 500 <= status <= 599 {
        AttemptOutcome::TransportError
    } else {
        AttemptOutcome::Absent
    }
}

/// Classifies the final HTTP status of one attempt.
pub fn classify_status(status: u16) -> (r: AttemptOutcome)
    ensures
        r == outcome_of_status(status),
{
    if 200 <= status && status <= 299 {
        AttemptOutcome::Found
    } else if 500 <= status && status <= 599 {
        AttemptOutcome::TransportError
    } else {
        AttemptOutcome::Absent
    }
}

/// `lo..hi` bounds what is left of `s` once the slashes at both ends are cut.
pub open spec fn trim_bounds(s: Seq<char>, lo: int, hi: int) -> bool {
    &&& 0 <= lo <= hi <= s.len()
    &&& forall|i: int| 0 <= i < lo ==> s[i] == '/'
    &&& forall|i: int| hi <= i < s.len() ==> s[i] == '/'
    &&& lo < hi ==> s[lo] != '/' && s[hi - 1] != '/'
}

/// `t` is `s` without the slashes at both of its ends.
pub open spec fn is_slash_trim(t: Seq<char>, s: Seq<char>) -> bool {
    exists|lo: int, hi: int| trim_bounds(s, lo, hi) && t == s.subrange(lo, hi)
}

fn trim_slashes(s: &str) -> (r: &str)
    ensures
        is_slash_trim(r@, s@),
{
    let n = s.unicode_len();
    let mut lo: usize = 0;
    while lo < n && s.get_char(lo) == '/'
        invariant
            n == s@.len(),
            lo <= n,
            forall|i: int| 0 <= i < lo ==> s@[i] == '/',
        decreases n - lo,
    {
        lo = lo + 1;
    }
    let mut hi: usize = n;
    while hi > lo && s.get_char(hi - 1) == '/'
        invariant
            n == s@.len(),
            lo <= hi <= n,
            forall|i: int| hi <= i < n ==> s@[i] == '/',
        decreases hi,
    {
        hi = hi - 1;
    }
    let r = s.substring_char(lo, hi);
    assert(trim_bounds(s@, lo as int, hi as int));
    r
}

/// The key of an object in a bucket: the path within the source, under the
/// source's prefix when the prefix holds more than slashes.
pub open spec fn is_s3_key(key: Seq<char>, prefix: Seq<char>, path: Seq<char>) -> bool {
    exists|t: Seq<char>|
        is_slash_trim(t, prefix) && key == if t.len() == 0 {
            path
        } else {
            t + seq!['/'] + path
        }
}

/// The key under which an S3 source keeps the object at `path`.
pub fn s3_object_key(prefix: &str, path: &str) -> (r: String)
    ensures
        is_s3_key(r@, prefix@, path@),
{
    let t = trim_slashes(prefix);
    if t.unicode_len() == 0 {
        let r = path.to_string();
        assert(is_slash_trim(t@, prefix@) && r@ == path@);
        r
    } else {
        let r = t.to_string().concat("/").concat(path);
        proof {
            reveal_strlit("/");
        }
        assert("/"@ =~= seq!['/']);
        assert(is_slash_trim(t@, prefix@) && r@ == t@ + seq!['/'] + path@);
        r
    }
}

/// What identifies the client for an S3 source: credentials, region, and an
/// endpoint for servers other than AWS (such as MinIO).
pub struct S3SourceKey {
    pub region: String,
    pub access_key: String,
    pub secret_key: String,
    pub end_point: Option<String>,
}

/// Where an S3 client sends its requests.
pub enum S3Endpoint {
    /// AWS, in this region.
    Aws { region: String },
    /// Another server: the region name as given, and the server's URL.
    Custom { name: String, endpoint: String },
}

/// The endpoint of the client for `key`: its own endpoint where it names
/// one, else AWS in its region.
pub fn s3_endpoint(key: &S3SourceKey) -> (r: S3Endpoint)
    ensures
        match key.end_point {
            Some(e) => r matches S3Endpoint::Custom { name, endpoint } && name@ == key.region@
                && endpoint@ == e@,
            None => r matches S3Endpoint::Aws { region } && region@ == key.region@,
        },
{
    match &key.end_point {
        Some(e) => S3Endpoint::Custom { name: key.region.clone(), endpoint: e.clone() },
        None => S3Endpoint::Aws { region: key.region.clone() },
    }
}

/// Seconds for which the list that a Sentry index returned is used again.
pub const SEARCH_RESULT_TTL_SECS: u64 = 3600;

/// Whether an index listing made at `created` may still be used at `now`.
pub fn search_is_fresh(created: u64, now: u64) -> (r: bool)
    ensures
        r == (age(created, now) < SEARCH_RESULT_TTL_SECS),
{
    let a: u64 = if now >= created {
        now - created
    } else {
        0
    };
    a < SEARCH_RESULT_TTL_SECS
}

/// One download attempt: which source, and what within it.
pub enum FileId {
    /// A path under a directory of the local file system.
    Filesystem { source: String, path: String },
    /// A path relative to the URL of a symbol server.
    Http { source: String, path: String },
    /// A path under the prefix of a bucket.
    S3 { source: String, path: String },
    /// A file that a Sentry index listed, by the id it gave.
    Sentry { source: String, id: String },
}

impl FileId {
    /// The source that the attempt goes to.
    pub open spec fn source(&self) -> Seq<char> {
        match self {
            FileId::Filesystem { source, .. } => source@,
            FileId::Http { source, .. } => source@,
            FileId::S3 { source, .. } => source@,
            FileId::Sentry { source, .. } => source@,
        }
    }

    /// The path, or the id, within the source.
    pub open spec fn location(&self) -> Seq<char> {
        match self {
            FileId::Filesystem { path, .. } => path@,
            FileId::Http { path, .. } => path@,
            FileId::S3 { path, .. } => path@,
            FileId::Sentry { id, .. } => id@,
        }
    }
}

/// The file ids for the files that a Sentry index listed, in its order.
pub fn sentry_file_ids(source: &str, ids: &Vec<String>) -> (r: Vec<FileId>)
    ensures
        r@.len() == ids@.len(),
        forall|i: int|
            0 <= i < ids@.len() ==> (#[trigger] r@[i] matches FileId::Sentry { .. }) && r@[i].source()
                == source@ && r@[i].location() == ids@[i]@,
{
    let mut r: Vec<FileId> = Vec::new();
    let mut i: usize = 0;
    while i < ids.len()
        invariant
            i <= ids@.len(),
            r@.len() == i,
            forall|j: int|
                0 <= j < i ==> (#[trigger] r@[j] matches FileId::Sentry { .. }) && r@[j].source()
                    == source@ && r@[j].location() == ids@[j]@,
        decreases ids@.len() - i,
    {
        r.push(FileId::Sentry { source: source.to_string(), id: ids[i].clone() });
        i = i + 1;
    }
    r
}

/// The kinds of source that are searched by path.
#[derive(Clone, Copy, Debug, PartialEq, Eq, Structural)]
pub enum PathSourceKind {
    Filesystem,
    Http,
    S3,
}

pub open spec fn kind_matches(id: FileId, kind: PathSourceKind) -> bool {
    match kind {
        PathSourceKind::Filesystem => id matches FileId::Filesystem { .. },
        PathSourceKind::Http => id matches FileId::Http { .. },
        PathSourceKind::S3 => id matches FileId::S3 { .. },
    }
}

/// The download attempts at a source searched by path: one per candidate
/// path, in the order of the candidates.
pub fn prepare_downloads(
    kind: PathSourceKind,
    source: &str,
    obj: &ObjectId,
    requested: &Vec<FileType>,
    filters: &SourceFilters,
    layout: Layout,
) -> (r: Vec<FileId>)
    ensures
        r@.len() == candidate_paths(
            canonical_order(),
            *obj,
            requested@,
            filters.filetypes@,
            patterns_view(filters.path_patterns@),
            layout,
        ).len(),
        forall|i: int|
            0 <= i < r@.len() ==> kind_matches(#[trigger] r@[i], kind) && r@[i].source() == source@
                && r@[i].location() == candidate_paths(
                canonical_order(),
                *obj,
                requested@,
                filters.filetypes@,
                patterns_view(filters.path_patterns@),
                layout,
            )[i],
{
    let paths = prepare_download_paths(obj, requested, filters, layout);
    let mut r: Vec<FileId> = Vec::new();
    let mut i: usize = 0;
    while i < paths.len()
        invariant
            i <= paths@.len(),
            r@.len() == i,
            forall|j: int|
                0 <= j < i ==> kind_matches(#[trigger] r@[j], kind) && r@[j].source() == source@
                    && r@[j].location() == paths@[j]@,
        decreases paths@.len() - i,
    {
        let path = paths[i].clone();
        let src = source.to_string();
        let id = match kind {
            PathSourceKind::Filesystem => FileId::Filesystem { source: src, path },
            PathSourceKind::Http => FileId::Http { source: src, path },
            PathSourceKind::S3 => FileId::S3 { source: src, path },
        };
        r.push(id);
        i = i + 1;
    }
    assert forall|j: int| 0 <= j < paths@.len() implies paths@[j]@ == #[trigger] patterns_view(paths@)[j] by {}
    r
}

/// Where a download from a symbol server stands: which attempt runs, and how
/// many redirects it may still follow.
#[derive(Clone, Copy, Debug, PartialEq, Eq, Structural)]
pub struct HttpProgress {
    pub attempt: usize,
    pub redirects_left: usize,
}

/// The state of a download before its first request.
pub fn http_start() -> (r: HttpProgress)
    ensures
        r == (HttpProgress { attempt: 1, redirects_left: MAX_HTTP_REDIRECTS }),
{
    HttpProgress { attempt: 1, redirects_left: MAX_HTTP_REDIRECTS }
}

/// How a download from a symbol server ended.
#[derive(Clone, Copy, Debug, PartialEq, Eq, Structural)]
pub enum HttpResult {
    /// Stream the body of the last response.
    Found,
    /// The server does not hold the file.
    Absent,
    /// Every attempt failed in transport: the source failed for this request.
    Failed,
}

/// What happened to the request last sent.
pub enum HttpEvent<'a> {
    Response { status: u16, location: Option<&'a str> },
    TransportError,
}

/// What to do next.
pub enum HttpAction {
    /// Send a GET to `url` with `headers`.
    Request { url: String, headers: Vec<Header>, next: HttpProgress },
    /// Wait this many milliseconds (before jitter), then send the first
    /// request again.
    Retry { delay_ms: u64, next: HttpProgress },
    Finish(HttpResult),
}

/// The step after a transport failure, or a server error, in attempt `attempt`.
pub open spec fn after_failure(attempt: usize) -> (Option<u64>, HttpProgress) {
    if attempt < MAX_ATTEMPTS {
        (
            Some(backoff_delay(BACKOFF_BASE_MS, (attempt - 1) as nat)),
            HttpProgress { attempt: (attempt + 1) as usize, redirects_left: MAX_HTTP_REDIRECTS },
        )
    } else {
        (None, HttpProgress { attempt, redirects_left: 0 })
    }
}

fn retry_or_fail(policy: &RetryPolicy, attempt: usize) -> (r: HttpAction)
    requires
        policy.wf(),
        1 <= attempt <= MAX_ATTEMPTS,
    ensures
        match after_failure(attempt) {
            (Some(d), next) => r matches HttpAction::Retry { delay_ms, next: n } && delay_ms == d && n == next,
            (None, _) => r matches HttpAction::Finish(HttpResult::Failed),
        },
{
    match policy.next_step(attempt, AttemptOutcome::TransportError) {
        RetryStep::RetryAfter(d) => HttpAction::Retry {
            delay_ms: d,
            next: HttpProgress { attempt: attempt + 1, redirects_left: MAX_HTTP_REDIRECTS },
        },
        _ => HttpAction::Finish(HttpResult::Failed),
    }
}

/// Decides the next step of a download from a symbol server, where the
/// request last sent, made with `headers`, met `event`. Redirects are followed
/// while some are left; a success finds the file; a server error or a
/// transport failure starts the next attempt after a backoff, until the
/// attempts run out; any other status means the file is absent.
pub fn download_step(
    policy: &RetryPolicy,
    progress: HttpProgress,
    headers: &Vec<Header>,
    event: HttpEvent,
) -> (r: HttpAction)
    requires
        policy.wf(),
        1 <= progress.attempt <= MAX_ATTEMPTS,
    ensures
        match event {
            HttpEvent::TransportError => match after_failure(progress.attempt) {
                (Some(d), next) => r matches HttpAction::Retry { delay_ms, next: n } && delay_ms == d
                    && n == next,
                (None, _) => r matches HttpAction::Finish(HttpResult::Failed),
            },
            HttpEvent::Response { status, location } => if follows(
                status,
                location_view(location),
                progress.redirects_left as nat,
            ) {
                r matches HttpAction::Request { url, headers: sent, next } && url@ == location.unwrap()@
                    && headers_view(sent@) == forwarded(headers_view(headers@)) && next == (HttpProgress {
                    attempt: progress.attempt,
                    redirects_left: (progress.redirects_left - 1) as usize,
                })
            } else {
                match outcome_of_status(status) {
                    AttemptOutcome::Found => r matches HttpAction::Finish(HttpResult::Found),
                    AttemptOutcome::Absent => r matches HttpAction::Finish(HttpResult::Absent),
                    AttemptOutcome::TransportError => match after_failure(progress.attempt) {
                        (Some(d), next) => r matches HttpAction::Retry { delay_ms, next: n }
                            && delay_ms == d && n == next,
                        (None, _) => r matches HttpAction::Finish(HttpResult::Failed),
                    },
                }
            },
        },
{
    match event {
        HttpEvent::TransportError => retry_or_fail(policy, progress.attempt),
        HttpEvent::Response { status, location } => {
            match follow_redirects(status, location, headers, progress.redirects_left) {
                RedirectStep::Follow { url, headers: sent } => HttpAction::Request {
                    url,
                    headers: sent,
                    next: HttpProgress {
                        attempt: progress.attempt,
                        redirects_left: progress.redirects_left - 1,
                    },
                },
                RedirectStep::Done => match classify_status(status) {
                    AttemptOutcome::Found => HttpAction::Finish(HttpResult::Found),
                    AttemptOutcome::Absent => HttpAction::Finish(HttpResult::Absent),
                    AttemptOutcome::TransportError => retry_or_fail(policy, progress.attempt),
                },
            }
        },
    }
}

/// The text of the URL that `path` names relative to the URL `base`, where
/// `base` parses as a URL and the join succeeds.
pub uninterp spec fn joined_url(base: Seq<char>, path: Seq<char>) -> Option<Seq<char>>;

/// The text of the URL `url` with the pair `name`=`value` appended to its
/// query, where `url` parses as a URL.
pub uninterp spec fn url_with_query_pair(url: Seq<char>, name: Seq<char>, value: Seq<char>) -> Option<Seq<char>>;

/// Relies on url::Url::parse, then url::Url::join: the URL that `path` names
/// relative to `base`, written out; none where either fails.
#[verifier::external_body]
fn join_url(base: &str, path: &str) -> (r: Option<String>)
    ensures
        opt_view(r) == joined_url(base@, path@),
{
    url::Url::parse(base).and_then(|u| u.join(path)).ok().map(|u| u.into_string())
}

/// Relies on url::Url::parse, then url::form_urlencoded::Serializer::append_pair
/// on the URL's query: the URL with the pair appended, written out; none
/// where `url` does not parse.
#[verifier::external_body]
fn append_query_pair(url: &str, name: &str, value: &str) -> (r: Option<String>)
    ensures
        opt_view(r) == url_with_query_pair(url@, name@, value@),
{
    match url::Url::parse(url) {
        Ok(mut u) => {
            u.query_pairs_mut().append_pair(name, value);
            Some(u.into_string())
        },
        Err(_) => None,
    }
}

/// The URL of the file at `path` on the symbol server at `base`. Where none
/// can be formed, nothing is downloaded from the server.
pub fn http_download_url(base: &str, path: &str) -> (r: Option<String>)
    ensures
        opt_view(r) == joined_url(base@, path@),
{
    join_url(base, path)
}

/// The URL at which a Sentry index at `base` lists the files of a module,
/// asking by debug id, then by code id, for those the module has.
pub open spec fn sentry_index_url_of(
    base: Seq<char>,
    debug_id: Option<Seq<char>>,
    code_id: Option<Seq<char>>,
) -> Option<Seq<char>> {
    let after_debug = match debug_id {
        Some(d) => url_with_query_pair(base, "debug_id"@, d),
        None => Some(base),
    };
    match after_debug {
        None => None,
        Some(u) => match code_id {
            Some(c) => url_with_query_pair(u, "code_id"@, c),
            None => Some(u),
        },
    }
}

pub open spec fn str_opt_view(s: Option<&str>) -> Option<Seq<char>> {
    match s {
        Some(x) => Some(x@),
        None => None,
    }
}

/// The URL of the listing of a module's files at the Sentry index `base`.
pub fn sentry_index_url(base: &str, debug_id: Option<&str>, code_id: Option<&str>) -> (r: Option<String>)
    ensures
        opt_view(r) == sentry_index_url_of(base@, str_opt_view(debug_id), str_opt_view(code_id)),
{
    proof {
        reveal_strlit("debug_id");
        reveal_strlit("code_id");
    }
    let after_debug = match debug_id {
        Some(d) => append_query_pair(base, "debug_id", d),
        None => Some(base.to_string()),
    };
    match after_debug {
        None => None,
        Some(u) => match code_id {
            Some(c) => append_query_pair(u.as_str(), "code_id", c),
            None => Some(u),
        },
    }
}

/// The URL from which a Sentry source at `base` serves the file with `id`.
pub fn sentry_download_url(base: &str, id: &str) -> (r: Option<String>)
    ensures
        opt_view(r) == url_with_query_pair(base@, "id"@, id@),
{
    proof {
        reveal_strlit("id");
    }
    append_query_pair(base, "id", id)
}

} // verus!
