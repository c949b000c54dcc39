use symbolicator::download::{
    download_step, http_download_url, s3_endpoint, S3Endpoint, S3SourceKey, http_start, sentry_download_url, sentry_index_url, HttpAction, HttpEvent, HttpProgress, HttpResult,
    classify_status, prepare_downloads, s3_object_key, search_is_fresh, sentry_file_ids, FileId,
    PathSourceKind,
};
use symbolicator::paths::{glob_matches, parse_symstore_path, prepare_download_paths, FileType, Layout, ObjectId, SourceFilters};
use symbolicator::redirect::{follow_redirects, Header, RedirectStep, MAX_HTTP_REDIRECTS};
use symbolicator::retry::{AttemptOutcome, RetryPolicy, RetryStep, MAX_ATTEMPTS};

fn pdb_object() -> ObjectId {
    ObjectId {
        debug_id: Some("971F25CD1".to_string()),
        code_id: Some("5AB380779000".to_string()),
        debug_name: Some("wntdll.pdb".to_string()),
        code_name: Some("wntdll.dll".to_string()),
    }
}

fn no_filters() -> SourceFilters {
    SourceFilters { filetypes: Vec::new(), path_patterns: Vec::new() }
}

#[test]
fn backoff_waits_ten_then_hundred_ms() {
    let p = RetryPolicy::new();
    assert_eq!(p.next_step(1, AttemptOutcome::TransportError), RetryStep::RetryAfter(10));
    assert_eq!(p.next_step(2, AttemptOutcome::TransportError), RetryStep::RetryAfter(100));
    assert_eq!(p.next_step(3, AttemptOutcome::TransportError), RetryStep::Exhausted);
}

#[test]
fn failing_source_gets_three_attempts() {
    let p = RetryPolicy::new();
    let mut attempts = 0;
    let mut attempt = 1;
    loop {
        attempts += 1;
        match p.next_step(attempt, classify_status(500)) {
            RetryStep::RetryAfter(_) => attempt += 1,
            RetryStep::Exhausted => break,
            other => panic!("unexpected {:?}", other),
        }
    }
    assert_eq!(attempts, 3);
    assert_eq!(MAX_ATTEMPTS, 3);
    assert_eq!(p.next_step(1, classify_status(200)), RetryStep::Found);
}

#[test]
fn absence_is_not_retried() {
    let p = RetryPolicy::new();
    assert_eq!(p.next_step(1, classify_status(404)), RetryStep::Absent);
}

#[test]
fn status_classification() {
    assert_eq!(classify_status(200), AttemptOutcome::Found);
    assert_eq!(classify_status(204), AttemptOutcome::Found);
    assert_eq!(classify_status(404), AttemptOutcome::Absent);
    assert_eq!(classify_status(302), AttemptOutcome::Absent);
    assert_eq!(classify_status(503), AttemptOutcome::TransportError);
}

#[test]
fn redirect_keeps_headers_but_host() {
    let headers = vec![
        Header { name: "Host".to_string(), value: "a.example".to_string() },
        Header { name: "Authorization".to_string(), value: "Bearer x".to_string() },
        Header { name: "hOsT".to_string(), value: "b".to_string() },
    ];
    match follow_redirects(302, Some("http://b.example/f"), &headers, MAX_HTTP_REDIRECTS) {
        RedirectStep::Follow { url, headers } => {
            assert_eq!(url, "http://b.example/f");
            assert_eq!(headers.len(), 1);
            assert_eq!(headers[0].name, "Authorization");
            assert_eq!(headers[0].value, "Bearer x");
        }
        RedirectStep::Done => panic!("redirect not followed"),
    }
}

#[test]
fn redirect_stops_on_success_budget_or_missing_location() {
    let headers = Vec::new();
    assert!(matches!(follow_redirects(200, Some("x"), &headers, 10), RedirectStep::Done));
    assert!(matches!(follow_redirects(302, Some("x"), &headers, 0), RedirectStep::Done));
    assert!(matches!(follow_redirects(302, None, &headers, 10), RedirectStep::Done));
}

#[test]
fn s3_key_joins_trimmed_prefix() {
    assert_eq!(s3_object_key("/bucket/dir/", "a/b/c"), "bucket/dir/a/b/c");
    assert_eq!(s3_object_key("", "a/b"), "a/b");
    assert_eq!(s3_object_key("///", "a/b"), "a/b");
    assert_eq!(s3_object_key("p", "x"), "p/x");
}

#[test]
fn sentry_listing_fresh_for_an_hour() {
    assert!(search_is_fresh(1000, 1000 + 3599));
    assert!(!search_is_fresh(1000, 1000 + 3600));
}

#[test]
fn sentry_ids_become_file_ids() {
    let ids = vec!["1".to_string(), "22".to_string()];
    let r = sentry_file_ids("sentry", &ids);
    assert_eq!(r.len(), 2);
    assert!(matches!(&r[1], FileId::Sentry { source, id } if source == "sentry" && id == "22"));
}

#[test]
fn native_paths_in_canonical_order() {
    let paths = prepare_download_paths(&pdb_object(), &vec![FileType::Pe, FileType::Pdb], &no_filters(), Layout::Native);
    assert_eq!(paths, vec!["wntdll.pdb/971F25CD1/wntdll.pdb".to_string(), "wntdll.dll/5AB380779000/wntdll.dll".to_string()]);
}

#[test]
fn index2_layout_prefixes_name() {
    let paths = prepare_download_paths(&pdb_object(), &vec![FileType::Pdb], &no_filters(), Layout::SymstoreIndex2);
    assert_eq!(paths, vec!["wn/wntdll.pdb/971F25CD1/wntdll.pdb".to_string()]);
}

#[test]
fn source_without_matching_types_yields_nothing() {
    let filters = SourceFilters { filetypes: vec![FileType::ElfDebug], path_patterns: Vec::new() };
    let ids = prepare_downloads(PathSourceKind::Http, "s", &pdb_object(), &vec![FileType::Pdb, FileType::Pe], &filters, Layout::Native);
    assert!(ids.is_empty());
}

#[test]
fn path_patterns_filter_candidates() {
    let filters = SourceFilters { filetypes: Vec::new(), path_patterns: vec!["*.pdb".to_string()] };
    let ids = prepare_downloads(PathSourceKind::S3, "s3", &pdb_object(), &vec![FileType::Pdb, FileType::Pe], &filters, Layout::Native);
    assert_eq!(ids.len(), 1);
    assert!(matches!(&ids[0], FileId::S3 { source, path } if source == "s3" && path == "wntdll.pdb/971F25CD1/wntdll.pdb"));
}

#[test]
fn missing_identity_yields_no_path() {
    let obj = ObjectId { debug_id: None, code_id: None, debug_name: Some("a.pdb".to_string()), code_name: None };
    assert!(prepare_download_paths(&obj, &vec![FileType::Pdb], &no_filters(), Layout::Native).is_empty());
}

#[test]
fn glob_patterns() {
    assert!(glob_matches("*.pdb", "a/b.pdb"));
    assert!(glob_matches("a?c", "abc"));
    assert!(!glob_matches("a?c", "ac"));
    assert!(glob_matches("*", ""));
    assert!(!glob_matches("", "x"));
}

#[test]
fn server_error_every_attempt_fails_after_three() {
    let p = RetryPolicy::new();
    let mut state = http_start();
    let mut requests = 0;
    let mut waits = Vec::new();
    loop {
        requests += 1;
        match download_step(&p, state, &Vec::new(), HttpEvent::Response { status: 500, location: None }) {
            HttpAction::Retry { delay_ms, next } => {
                waits.push(delay_ms);
                state = next;
            }
            HttpAction::Finish(r) => {
                assert_eq!(r, HttpResult::Failed);
                break;
            }
            HttpAction::Request { .. } => panic!("no redirect expected"),
        }
    }
    assert_eq!(requests, 3);
    assert_eq!(waits, vec![10, 100]);
}

#[test]
fn redirect_then_success_is_found() {
    let p = RetryPolicy::new();
    let headers = vec![Header { name: "X-Token".to_string(), value: "t".to_string() }];
    let state = http_start();
    let next = match download_step(&p, state, &headers, HttpEvent::Response { status: 302, location: Some("http://cdn/f") }) {
        HttpAction::Request { url, headers, next } => {
            assert_eq!(url, "http://cdn/f");
            assert_eq!(headers.len(), 1);
            assert_eq!(next, HttpProgress { attempt: 1, redirects_left: MAX_HTTP_REDIRECTS - 1 });
            next
        }
        _ => panic!("redirect expected"),
    };
    let direct = download_step(&p, state, &headers, HttpEvent::Response { status: 200, location: None });
    let redirected = download_step(&p, next, &headers, HttpEvent::Response { status: 200, location: None });
    assert!(matches!(direct, HttpAction::Finish(HttpResult::Found)));
    assert!(matches!(redirected, HttpAction::Finish(HttpResult::Found)));
}

#[test]
fn transport_error_then_not_found() {
    let p = RetryPolicy::new();
    let state = match download_step(&p, http_start(), &Vec::new(), HttpEvent::TransportError) {
        HttpAction::Retry { delay_ms, next } => {
            assert_eq!(delay_ms, 10);
            next
        }
        _ => panic!("retry expected"),
    };
    assert_eq!(state.attempt, 2);
    assert!(matches!(
        download_step(&p, state, &Vec::new(), HttpEvent::Response { status: 404, location: None }),
        HttpAction::Finish(HttpResult::Absent)
    ));
}

#[test]
fn http_url_joins_path() {
    assert_eq!(
        http_download_url("http://localhost:1234/download/", "wntdll.pdb/971F25CD1/wntdll.pdb"),
        Some("http://localhost:1234/download/wntdll.pdb/971F25CD1/wntdll.pdb".to_string())
    );
    assert_eq!(http_download_url("http://h/a/b", "c"), Some("http://h/a/c".to_string()));
    assert_eq!(http_download_url("not a url", "c"), None);
}

#[test]
fn sentry_urls_carry_query_pairs() {
    assert_eq!(
        sentry_index_url("https://sentry.io/api/0/files/", Some("abc-1"), Some("ff")),
        Some("https://sentry.io/api/0/files/?debug_id=abc-1&code_id=ff".to_string())
    );
    assert_eq!(
        sentry_index_url("https://sentry.io/api/0/files/", None, Some("a b")),
        Some("https://sentry.io/api/0/files/?code_id=a+b".to_string())
    );
    assert_eq!(sentry_index_url("https://s/x", None, None), Some("https://s/x".to_string()));
    assert_eq!(sentry_download_url("https://s/dl?x=1", "42"), Some("https://s/dl?x=1&id=42".to_string()));
    assert_eq!(sentry_download_url("::", "42"), None);
}

#[test]
fn s3_endpoint_choice() {
    let mut key = S3SourceKey {
        region: "us-east-1".to_string(),
        access_key: "a".to_string(),
        secret_key: "SECRET-REDACTED".to_string(),
        end_point: None,
    };
    assert!(matches!(s3_endpoint(&key), S3Endpoint::Aws { region } if region == "us-east-1"));
    key.end_point = Some("http://minio:9000".to_string());
    assert!(matches!(s3_endpoint(&key), S3Endpoint::Custom { name, endpoint } if name == "us-east-1" && endpoint == "http://minio:9000"));
}

#[test]
fn symstore_path_parsing() {
    let (types, obj) = parse_symstore_path("wntdll.pdb/971F25CD1/wntdll.pdb").unwrap();
    assert_eq!(types, vec![FileType::Pdb]);
    assert_eq!(obj.debug_name.as_deref(), Some("wntdll.pdb"));
    assert_eq!(obj.debug_id.as_deref(), Some("971F25CD1"));
    assert!(obj.code_name.is_none());
    let (types, obj) = parse_symstore_path("NTDLL.DLL/5AB380779000/NTDLL.DLL").unwrap();
    assert_eq!(types, vec![FileType::Pe]);
    assert_eq!(obj.code_id.as_deref(), Some("5AB380779000"));
    let regenerated = prepare_download_paths(&obj, &types, &no_filters(), Layout::Symstore);
    assert_eq!(regenerated, vec!["NTDLL.DLL/5AB380779000/NTDLL.DLL".to_string()]);
}

#[test]
fn symstore_path_rejections() {
    assert!(parse_symstore_path("a.pdb/1/b.pdb").is_none());
    assert!(parse_symstore_path("a.pdb/1").is_none());
    assert!(parse_symstore_path("a.pdb/1/a.pdb/x").is_none());
    assert!(parse_symstore_path("a.txt/1/a.txt").is_none());
    assert!(parse_symstore_path("a.pdb//a.pdb").is_none());
    assert!(parse_symstore_path("").is_none());
}
