use replicante_util::failure::failure_info;
use replicante_util::failure::format_fail;
use replicante_util::failure::FailSnapshot;
use replicante_util::failure::SerializableFail;

fn chain(layers: &[&str]) -> FailSnapshot {
    let layers = layers.iter().map(|l| String::from(*l)).collect();
    FailSnapshot::new(layers)
}

#[test]
fn format_flat_error() {
    let error = chain(&["test"]);
    let msg = format_fail(&error);
    assert_eq!(msg, "Error: test");
}

#[test]
fn format_nested_errors() {
    let error = chain(&["test", "some", "more", "errors"]);
    let msg = format_fail(&error);
    assert_eq!(
        msg,
        r#"Error: test
    Caused by: some
    Caused by: more
    Caused by: errors"#
    );
}

#[test]
fn format_with_backtrace() {
    let mut error = chain(&["test"]);
    error.trace = Some(String::from("frame one"));
    let msg = format_fail(&error);
    assert_eq!(msg, "Error: test\n    Backtrace: frame one");
}

#[test]
fn serializable_fail() {
    let mut snapshot = chain(&["failures", "chained", "test"]);
    snapshot.name = Some(String::from("Failures"));
    let error = SerializableFail::from_snapshot(&snapshot);
    assert_eq!(error.error, "failures");
    assert_eq!(
        error.layers,
        vec![
            String::from("failures"),
            String::from("chained"),
            String::from("test"),
        ]
    );
    assert_eq!(error.trace, None);
    assert_eq!(error.variant, Some(String::from("Failures")));
}

#[test]
fn log_flat_error() {
    let error = chain(&["test"]);
    let info = failure_info(&error);
    assert_eq!(info.cause, None);
    assert_eq!(info.cause_name, None);
    assert_eq!(info.layers, 1);
    assert_eq!(info.message, "test");
}

#[test]
fn log_nested_errors() {
    let error = chain(&["test", "some", "more", "errors"]);
    let info = failure_info(&error);
    assert_eq!(info.cause, Some("errors".into()));
    assert_eq!(info.layers, 4);
    assert_eq!(info.message, "test");
}

#[test]
fn log_root_cause_name() {
    let mut error = chain(&["test", "errors"]);
    error.root_name = Some(String::from("RootKind"));
    let info = failure_info(&error);
    assert_eq!(info.cause, Some(String::from("errors")));
    assert_eq!(info.cause_name, Some(String::from("RootKind")));
}
