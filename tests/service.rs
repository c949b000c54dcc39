use symbolicator::cache::{CacheConfig, CacheFile};
use symbolicator::cli::{
    cleanup_caches, execute, get_crate_version, get_long_crate_version, Action, CacheConfigs, Caches, Cli,
    CliError, Command, Config,
};
use symbolicator::endpoints::{
    get_request, get_symstore_proxy, status_word, ProxyErrorKind, ProxyLookup, ProxyResponse,
    SymbolicationRequestQueryParams, WriteSentryScope,
};
use symbolicator::metrics::{RequestMetrics, RequestMetricsMiddleware};
use symbolicator::requests::{poll, PollAction, Registry, RequestRecord, RequestState, SubmitError};
use symbolicator::text::to_decimal;

fn limits() -> CacheConfigs {
    let downloaded = CacheConfig { max_age: Some(10), positive_ttl: None, negative_ttl: Some(5), max_total_bytes: None };
    let derived = CacheConfig { max_age: None, positive_ttl: None, negative_ttl: None, max_total_bytes: Some(1) };
    CacheConfigs { downloaded, derived }
}

#[test]
fn poll_with_zero_timeout_answers_at_once() {
    let rec = RequestRecord { id: 7, state: RequestState::Pending, finished_at: None };
    assert_eq!(poll(rec, Some(0), 0), PollAction::Respond(RequestState::Pending));
    assert_eq!(poll(rec, None, 0), PollAction::Respond(RequestState::Pending));
    assert_eq!(poll(rec, Some(30), 0), PollAction::WaitFor(30));
}

#[test]
fn async_polling_lifecycle() {
    let mut reg = Registry::new(4);
    assert_eq!(reg.submit(42), Ok(()));
    assert_eq!(reg.get_status(42, Some(0), 100), PollAction::Respond(RequestState::Pending));
    assert_eq!(reg.get_status(42, Some(30), 100), PollAction::WaitFor(30));
    assert!(reg.finish(42, false, 110));
    assert_eq!(reg.get_status(42, Some(30), 110), PollAction::Respond(RequestState::Completed));
    assert_eq!(get_request(reg.get_status(42, Some(0), 170)), 200);
    assert_eq!(reg.get_status(42, Some(0), 201), PollAction::NotFound);
    assert_eq!(get_request(reg.get_status(42, Some(0), 201)), 404);
}

#[test]
fn reap_drops_only_expired() {
    let mut reg = Registry::new(4);
    reg.submit(1).unwrap();
    reg.submit(2).unwrap();
    reg.finish(1, true, 0);
    reg.reap(91);
    assert_eq!(reg.get_status(1, None, 0), PollAction::NotFound);
    assert_eq!(reg.get_status(2, None, 91), PollAction::Respond(RequestState::Pending));
}

#[test]
fn registry_backpressure_and_duplicates() {
    let mut reg = Registry::new(2);
    assert_eq!(reg.submit(1), Ok(()));
    assert_eq!(reg.submit(1), Err(SubmitError::DuplicateId));
    assert_eq!(reg.submit(2), Ok(()));
    assert_eq!(reg.submit(3), Err(SubmitError::QueueFull));
    assert!(!reg.finish(9, false, 0));
    assert_eq!(reg.get_status(9, None, 0), PollAction::NotFound);
}

#[test]
fn failed_request_reports_failed() {
    let mut reg = Registry::new(1);
    reg.submit(5).unwrap();
    reg.finish(5, true, 3);
    assert_eq!(reg.get_status(5, None, 3), PollAction::Respond(RequestState::Failed));
    assert_eq!(status_word(RequestState::Failed), "failed");
    assert_eq!(status_word(RequestState::Pending), "pending");
    assert_eq!(status_word(RequestState::Completed), "completed");
}

#[test]
fn exit_codes() {
    assert_eq!(CliError::ConfigParsing(String::new()).exit_code(), 1);
    assert_eq!(CliError::CacheIo(String::new()).exit_code(), 2);
    assert_eq!(CliError::Cleanup(String::new()).exit_code(), 3);
    assert_eq!(CliError::Startup(String::new()).exit_code(), 4);
    assert_eq!(CliError::Startup(String::new()).description(), "Failed to start the server");
}

#[test]
fn versions() {
    assert_eq!(get_crate_version(), "0.1.0");
    assert_eq!(get_long_crate_version(), "version: 0.1.0");
}

#[test]
fn cli_config_path() {
    let cli = Cli { config: Some("/etc/s.yml".to_string()), command: Command::Run };
    assert_eq!(cli.config(), Some("/etc/s.yml"));
    let cli = Cli { config: None, command: Command::Run };
    assert_eq!(cli.config(), None);
}

#[test]
fn execute_reports_config_error() {
    let cli = Cli { config: None, command: Command::Run };
    match execute(&cli, Err("bad yaml".to_string())) {
        Err(CliError::ConfigParsing(m)) => assert_eq!(m, "bad yaml"),
        _ => panic!("expected a config error"),
    }
}

#[test]
fn execute_cleanup_builds_tiers() {
    let cli = Cli { config: None, command: Command::Cleanup };
    let config = Config { cache_dir: Some("/cache".to_string()), caches: limits() };
    match execute(&cli, Ok(config)) {
        Ok(Action::Cleanup(caches)) => {
            assert_eq!(caches.objects.path.as_deref(), Some("/cache/objects"));
            assert_eq!(caches.object_meta.path.as_deref(), Some("/cache/object_meta"));
            assert_eq!(caches.symcaches.path.as_deref(), Some("/cache/symcaches"));
            assert_eq!(caches.cficaches.path.as_deref(), Some("/cache/cficaches"));
            assert_eq!(caches.objects.config, limits().downloaded);
            assert_eq!(caches.symcaches.config, limits().derived);
            assert_eq!(caches.cficaches.name, "cficaches");
        }
        _ => panic!("expected a cleanup"),
    }
}

#[test]
fn execute_run_serves() {
    let cli = Cli { config: None, command: Command::Run };
    let config = Config { cache_dir: None, caches: limits() };
    assert!(matches!(execute(&cli, Ok(config)), Ok(Action::Serve(c)) if c.cache_dir.is_none()));
}

#[test]
fn cleanup_caches_per_tier() {
    let config = Config { cache_dir: Some("/c".to_string()), caches: limits() };
    let caches = Caches::new(&config);
    let files = vec![CacheFile { size: 1, mtime: 0 }, CacheFile { size: 1, mtime: 50 }];
    let listings = vec![files.clone(), files.clone(), Vec::new(), files.clone()];
    let plan = cleanup_caches(&caches, &listings, 50);
    assert_eq!(plan[0], vec![true, false]);
    assert_eq!(plan[1], vec![true, false]);
    assert!(plan[2].is_empty());
    assert_eq!(plan[3], vec![true, false]);
}

#[test]
fn cache_without_directory_deletes_nothing() {
    let config = Config { cache_dir: None, caches: limits() };
    let caches = Caches::new(&config);
    assert!(caches.objects.path.is_none());
    let files = vec![CacheFile { size: 1, mtime: 0 }];
    assert_eq!(caches.objects.cleanup(&files, 100), vec![false]);
}

#[test]
fn proxy_answers() {
    assert_eq!(get_symstore_proxy(false, ProxyLookup::Found(3), false), ProxyResponse::NotFound);
    assert_eq!(get_symstore_proxy(true, ProxyLookup::BadPath, false), ProxyResponse::NotFound);
    assert_eq!(get_symstore_proxy(true, ProxyLookup::Missing, false), ProxyResponse::NotFound);
    assert_eq!(get_symstore_proxy(true, ProxyLookup::Found(0), false), ProxyResponse::NotFound);
    assert_eq!(get_symstore_proxy(true, ProxyLookup::Failed(ProxyErrorKind::Fetching), false), ProxyResponse::InternalError);
    assert_eq!(get_symstore_proxy(true, ProxyLookup::Found(3), true), ProxyResponse::Object { content_length: 3, with_body: false });
    assert_eq!(get_symstore_proxy(true, ProxyLookup::Found(3), false), ProxyResponse::Object { content_length: 3, with_body: true });
}

#[test]
fn query_params_tags() {
    let p = SymbolicationRequestQueryParams { timeout: Some(30), scope: "global".to_string() };
    let mut tags = Vec::new();
    p.write_sentry_scope(&mut tags);
    assert_eq!(tags.len(), 2);
    assert_eq!(tags[0].key, "request.scope");
    assert_eq!(tags[0].value, "global");
    assert_eq!(tags[1].key, "request.timeout");
    assert_eq!(tags[1].value, "30");
    let p = SymbolicationRequestQueryParams { timeout: None, scope: "t".to_string() };
    assert_eq!(p.sentry_tags()[1].value, "none");
}

#[test]
fn request_metrics() {
    let m = RequestMetrics.new_transform(5u8);
    assert_eq!(m.service, 5);
    assert!(!RequestMetricsMiddleware::<u8>::is_timed("/healthcheck"));
    assert!(RequestMetricsMiddleware::<u8>::is_timed("/symbolicate"));
    assert_eq!(RequestMetricsMiddleware::<u8>::status_metric(404), "responses.status_code.404");
}

#[test]
fn decimal_formatting() {
    assert_eq!(to_decimal(0), "0");
    assert_eq!(to_decimal(1234567890), "1234567890");
    assert_eq!(to_decimal(u64::MAX), "18446744073709551615");
}
