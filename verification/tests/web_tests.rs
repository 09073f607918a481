use replicante_util::tracing::span_poll_step;
use replicante_util::tracing::CollectorStep;
use replicante_util::tracing::Config as TracingConfig;
use replicante_util::tracing::SpanPoll;
use replicante_util::tracing::Error as TracingError;
use replicante_util::tracing::ZipkinHttp;
use replicante_util::web::event_level;
use replicante_util::web::event_message;
use replicante_util::web::order_scope_paths;
use replicante_util::web::root_resource_path;
use replicante_util::web::scope_path_has_variable;
use replicante_util::web::request_method;
use replicante_util::web::request_path;
use replicante_util::web::response_status;
use replicante_util::web::sentry_level_for_code;
use replicante_util::web::Error;
use replicante_util::web::ErrorKind;
use replicante_util::web::EventLevel;
use replicante_util::web::HttpError;
use replicante_util::web::SentryMiddleware;
use replicante_util::web::SentryMiddlewere;
use replicante_util::web::TracingContextError;

#[test]
fn error_kinds_have_names() {
    let error = Error::new(ErrorKind::ContextExtract(String::from("bad header")));
    assert_eq!(error.kind().kind_name(), Some("ContextExtract"));
    assert_eq!(
        error.kind().message(),
        "unable to extract trace context: bad header"
    );
    let kind = ErrorKind::ContextInject(String::from("no span"));
    assert_eq!(kind.kind_name(), Some("ContextInject"));
    assert_eq!(kind.message(), "unable to inject trace context: no span");
    let kind = ErrorKind::HeaderValue(String::from("traceid"));
    assert_eq!(kind.kind_name(), Some("HeaderValue"));
    assert_eq!(kind.message(), "invalid header value for traceid");
}

#[test]
fn http_error_message() {
    let error = HttpError::header_value_invalid("content-type");
    assert_eq!(error, HttpError::HeaderValueInvalid(String::from("content-type")));
    assert_eq!(error.message(), "invalid value for HTTP header 'content-type'");
}

#[test]
fn tracing_context_error_messages() {
    assert_eq!(TracingContextError::Extract.message(), "failed to extract tracing context");
    assert_eq!(TracingContextError::Inject.message(), "failed to inject tracing context");
}

#[test]
fn event_levels_by_status() {
    assert_eq!(event_level(200), EventLevel::Info);
    assert_eq!(event_level(399), EventLevel::Info);
    assert_eq!(event_level(400), EventLevel::Warning);
    assert_eq!(event_level(499), EventLevel::Warning);
    assert_eq!(event_level(500), EventLevel::Error);
    assert_eq!(event_level(503), EventLevel::Error);
    assert_eq!(sentry_level_for_code(404), EventLevel::Warning);
}

#[test]
fn sentry_middleware_reporting_threshold() {
    let middleware = SentryMiddleware::new(500);
    assert!(!middleware.current_hub());
    assert!(!middleware.reports(499));
    assert!(middleware.reports(500));
    let middleware = SentryMiddleware::with_current_hub(400);
    assert!(middleware.current_hub());
    assert!(middleware.reports(401));
    let after = SentryMiddlewere::new(400);
    assert!(!after.reports(399));
    assert!(after.reports(400));
}

#[test]
fn request_attributes() {
    assert_eq!(request_method("GET"), "GET");
    assert_eq!(request_path(&vec![]), "/");
    assert_eq!(request_path(&vec![String::from("api")]), "/api");
    assert_eq!(
        request_path(&vec![String::from("api"), String::from("v1"), String::from("metrics")]),
        "/api/v1/metrics"
    );
    assert_eq!(response_status(Some(200)), "200");
    assert_eq!(response_status(Some(65535)), "65535");
    assert_eq!(response_status(Some(7)), "7");
}

#[test]
fn event_messages() {
    assert_eq!(event_message(Some(String::from("boom")), "500 Internal Server Error"), "boom");
    assert_eq!(event_message(None, "400 Bad Request"), "HTTP 400 Bad Request");
}

#[test]
fn root_resource_paths() {
    assert_eq!(root_resource_path("/api/v1", ""), "/api/v1");
    assert_eq!(root_resource_path("/api/v1", "/"), "/api/v1");
    assert_eq!(root_resource_path("/api/v1", "/metrics"), "/api/v1/metrics");
    assert_eq!(root_resource_path("/api/v1", "metrics"), "/api/v1/metrics");
}

#[test]
fn scope_paths_reject_variables() {
    assert!(!scope_path_has_variable("/scope/prefix"));
    assert!(scope_path_has_variable("/path/with/{variable}"));
}

#[test]
fn scope_paths_ordered_before_mounting() {
    let ordered = order_scope_paths(vec![
        String::from("/scope/prefix"),
        String::from("/scope/prefix/overlap"),
        String::from("/api"),
    ]);
    assert_eq!(
        ordered,
        vec![
            String::from("/scope/prefix/overlap"),
            String::from("/scope/prefix"),
            String::from("/api"),
        ]
    );
}

#[test]
fn span_collector_steps() {
    assert_eq!(span_poll_step(SpanPoll::Received), CollectorStep::Process { received: true });
    assert_eq!(span_poll_step(SpanPoll::TimedOut), CollectorStep::Process { received: false });
    assert_eq!(span_poll_step(SpanPoll::Disconnected), CollectorStep::Stop);
}

#[test]
fn tracing_config_defaults() {
    assert_eq!(TracingConfig::default(), TracingConfig::Noop);
    assert_eq!(ZipkinHttp::default_flush_count(), 100);
}

#[test]
fn tracing_error_messages() {
    let error = TracingError::Config(String::from("bad url"));
    assert_eq!(error.message(), "configuration error: bad url");
    let error = TracingError::ThreadSpawn(String::from("span collector"));
    assert_eq!(error.message(), "unable to spawn span collector thread");
}
