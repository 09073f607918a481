use replicante_util::metrics::metric_name;
use replicante_util::metrics::validate_observe_metrics;
use replicante_util::metrics::MetricDesc;

fn desc(const_labels: &[&str], variable_labels: &[&str]) -> MetricDesc {
    MetricDesc {
        const_labels: const_labels.iter().map(|l| String::from(*l)).collect(),
        variable_labels: variable_labels.iter().map(|l| String::from(*l)).collect(),
    }
}

fn observe_descs() -> (Vec<MetricDesc>, Vec<MetricDesc>, Vec<MetricDesc>) {
    let duration = vec![desc(&[], &["method", "path"])];
    let errors = vec![desc(&[], &["method", "path"])];
    let requests = vec![desc(&[], &["method", "path", "status"])];
    (duration, errors, requests)
}

#[test]
fn observe_metrics_accepted() {
    let (duration, errors, requests) = observe_descs();
    assert!(validate_observe_metrics(&duration, &errors, &requests));
}

#[test]
fn duration_with_no_labels_rejected() {
    let (_, errors, requests) = observe_descs();
    let duration = vec![desc(&[], &[])];
    assert!(!validate_observe_metrics(&duration, &errors, &requests));
}

#[test]
fn duration_with_rand_labels_rejected() {
    let (_, errors, requests) = observe_descs();
    let duration = vec![desc(&[], &["method", "other"])];
    assert!(!validate_observe_metrics(&duration, &errors, &requests));
}

#[test]
fn duration_with_labels_out_of_order_rejected() {
    let (_, errors, requests) = observe_descs();
    let duration = vec![desc(&[], &["path", "method"])];
    assert!(!validate_observe_metrics(&duration, &errors, &requests));
}

#[test]
fn duration_with_static_method_label_rejected() {
    let (_, errors, requests) = observe_descs();
    let duration = vec![desc(&["method"], &["method", "path"])];
    assert!(!validate_observe_metrics(&duration, &errors, &requests));
}

#[test]
fn errors_with_static_path_label_rejected() {
    let (duration, _, requests) = observe_descs();
    let errors = vec![desc(&["path"], &["method", "path"])];
    assert!(!validate_observe_metrics(&duration, &errors, &requests));
}

#[test]
fn requests_with_static_code_label_rejected() {
    let (duration, errors, _) = observe_descs();
    let requests = vec![desc(&["status"], &["method", "path", "status"])];
    assert!(!validate_observe_metrics(&duration, &errors, &requests));
}

#[test]
fn requests_without_status_label_rejected() {
    let (duration, errors, _) = observe_descs();
    let requests = vec![desc(&[], &["method", "path"])];
    assert!(!validate_observe_metrics(&duration, &errors, &requests));
}

#[test]
fn metric_names_carry_the_prefix() {
    assert_eq!(metric_name("test", "_endpoint_duration"), "test_endpoint_duration");
    assert_eq!(metric_name("test", "_endpoint_errors"), "test_endpoint_errors");
    assert_eq!(metric_name("test", "_endpoint_requests"), "test_endpoint_requests");
}
