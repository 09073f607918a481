//! Validation of the metrics handed to the request-metrics middleware.
//!
//! The middleware records request durations, errors and counts into
//! caller-provided metrics, labelled by request method, path and response
//! status. A metric configured with the wrong variable labels, or with one
//! of those names as a constant label, would record nonsense, so the
//! middleware accepts a metric only after its descriptors pass the checks
//! here.
use vstd::prelude::*;

use vstd::string::StringExecFns;

verus! {

/// What a metric says about itself: its constant labels and its variable
/// labels, by name.
#[derive(Clone, PartialEq, Eq, Debug)]
pub struct MetricDesc {
    /// Names of the metric's constant labels.
    pub const_labels: Vec<String>,
    /// Names of the metric's variable labels, in order.
    pub variable_labels: Vec<String>,
}

/// The variable labels of the duration and error metrics.
pub open spec fn method_path_labels() -> Seq<Seq<char>> {
    seq!["method"@, "path"@]
}

/// The variable labels of the request-count metric.
pub open spec fn method_path_status_labels() -> Seq<Seq<char>> {
    seq!["method"@, "path"@, "status"@]
}

/// A descriptor conforms to an expected label list when its variable
/// labels are exactly that list and none of those names appears among its
/// constant labels.
pub open spec fn desc_conforms(desc: MetricDesc, expected: Seq<Seq<char>>) -> bool {
    &&& desc.variable_labels.deep_view() == expected
    &&& forall|i: int|
        0 <= i < expected.len() ==> !desc.const_labels.deep_view().contains(#[trigger] expected[i])
}

/// Every descriptor of the sequence conforms to the expected label list.
pub open spec fn descs_conform(descs: Seq<MetricDesc>, expected: Seq<Seq<char>>) -> bool {
    forall|i: int| 0 <= i < descs.len() ==> desc_conforms(#[trigger] descs[i], expected)
}

/// The name of an endpoint metric: the application prefix followed by the
/// metric's suffix.
pub fn metric_name(prefix: &str, suffix: &str) -> (r: String)
    ensures
        r@ == prefix@ + suffix@,
{
    let mut name = String::new();
    name.append(prefix);
    name.append(suffix);
    name
}

/// Whether `labels` holds a label of the given name.
fn contains_label(labels: &Vec<String>, name: &String) -> (r: bool)
    ensures
        r == labels.deep_view().contains(name@),
{
    let n: usize = labels.len();
    let mut i: usize = 0;
    while i < n
        invariant
            i <= n,
            n == labels@.len(),
            forall|j: int| 0 <= j < i ==> labels.deep_view()[j] != name@,
        decreases n - i,
    {
        if labels[i].eq(name) {
            proof {
                assert(labels.deep_view()[i as int] == name@);
            }
            return true;
        }
        i = i + 1;
    }
    proof {
        assert forall|j: int| 0 <= j < labels.deep_view().len() implies labels.deep_view()[j]
            != name@ by {}
    }
    false
}

/// Whether the two label lists hold the same names in the same order.
fn labels_equal(labels: &Vec<String>, expected: &Vec<String>) -> (r: bool)
    ensures
        r == (labels.deep_view() == expected.deep_view()),
{
    let n: usize = labels.len();
    if n != expected.len() {
        proof {
            assert(labels.deep_view().len() != expected.deep_view().len());
        }
        return false;
    }
    let mut i: usize = 0;
    while i < n
        invariant
            i <= n,
            n == labels@.len(),
            n == expected@.len(),
            forall|j: int| 0 <= j < i ==> labels.deep_view()[j] == expected.deep_view()[j],
        decreases n - i,
    {
        if !labels[i].eq(&expected[i]) {
            proof {
                assert(labels.deep_view()[i as int] != expected.deep_view()[i as int]);
            }
            return false;
        }
        i = i + 1;
    }
    proof {
        assert(labels.deep_view() =~= expected.deep_view());
    }
    true
}

/// Whether one descriptor conforms to the expected variable labels.
fn check_desc(desc: &MetricDesc, expected: &Vec<String>) -> (r: bool)
    ensures
        r == desc_conforms(*desc, expected.deep_view()),
{
    if !labels_equal(&desc.variable_labels, expected) {
        return false;
    }
    let n: usize = expected.len();
    let mut i: usize = 0;
    while i < n
        invariant
            i <= n,
            n == expected@.len(),
            desc.variable_labels.deep_view() == expected.deep_view(),
            forall|j: int|
                0 <= j < i ==> !desc.const_labels.deep_view().contains(
                    #[trigger] expected.deep_view()[j],
                ),
        decreases n - i,
    {
        if contains_label(&desc.const_labels, &expected[i]) {
            proof {
                assert(expected.deep_view()[i as int] == expected@[i as int]@);
                assert(desc.const_labels.deep_view().contains(expected.deep_view()[i as int]));
            }
            return false;
        }
        i = i + 1;
    }
    true
}

/// Whether every descriptor conforms to the expected variable labels.
fn check_descs(descs: &Vec<MetricDesc>, expected: &Vec<String>) -> (r: bool)
    ensures
        r == descs_conform(descs@, expected.deep_view()),
{
    let n: usize = descs.len();
    let mut i: usize = 0;
    while i < n
        invariant
            i <= n,
            n == descs@.len(),
            forall|j: int| 0 <= j < i ==> desc_conforms(#[trigger] descs@[j], expected.deep_view()),
        decreases n - i,
    {
        if !check_desc(&descs[i], expected) {
            return false;
        }
        i = i + 1;
    }
    true
}

/// The expected variable labels of the duration and error metrics.
pub fn method_path_names() -> (r: Vec<String>)
    ensures
        r.deep_view() == method_path_labels(),
{
    let mut names: Vec<String> = Vec::new();
    names.push(String::from_str("method"));
    names.push(String::from_str("path"));
    proof {
        assert(names.deep_view() =~= method_path_labels());
    }
    names
}

/// The expected variable labels of the request-count metric.
pub fn method_path_status_names() -> (r: Vec<String>)
    ensures
        r.deep_view() == method_path_status_labels(),
{
    let mut names: Vec<String> = Vec::new();
    names.push(String::from_str("method"));
    names.push(String::from_str("path"));
    names.push(String::from_str("status"));
    proof {
        assert(names.deep_view() =~= method_path_status_labels());
    }
    names
}

/// Whether the three metrics handed to the request-metrics middleware are
/// usable: the duration and error metrics must carry exactly the variable
/// labels `method` and `path`, the request-count metric exactly `method`,
/// `path` and `status`, and none of those names may be a constant label.
pub fn validate_observe_metrics(
    duration: &Vec<MetricDesc>,
    errors: &Vec<MetricDesc>,
    requests: &Vec<MetricDesc>,
) -> (r: bool)
    ensures
        r == (descs_conform(duration@, method_path_labels()) && descs_conform(
            errors@,
            method_path_labels(),
        ) && descs_conform(requests@, method_path_status_labels())),
{
    let method_path = method_path_names();
    let method_path_status = method_path_status_names();
    check_descs(duration, &method_path) && check_descs(errors, &method_path) && check_descs(
        requests,
        &method_path_status,
    )
}

} // verus!
