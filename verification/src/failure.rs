//! Snapshots of error chains, and helpers to render them for people or
//! for structured logs.
//!
//! An error produced by a fallible subsystem is, in general, a chain: an
//! outermost message wrapping ever deeper causes, possibly with a captured
//! backtrace and machine-readable names. [`FailSnapshot`] holds that chain
//! as plain text, outermost first; the functions here turn a snapshot into
//! a display string ([`format_fail`]), a serialisable record
//! ([`SerializableFail`]) or structured logging fields ([`failure_info`]).
use vstd::prelude::*;

use vstd::string::StringExecFns;

verus! {

/// A snapshot of a chain of errors, as plain text.
pub struct FailSnapshot {
    /// Message of each error in the chain, outermost first; never empty.
    pub layers: Vec<String>,
    /// Machine-readable name of the outermost error, when it has one.
    pub name: Option<String>,
    /// Machine-readable name of the root cause, when it has one.
    pub root_name: Option<String>,
    /// Rendered backtrace, when one was captured and is not empty.
    pub trace: Option<String>,
}

impl FailSnapshot {
    /// A snapshot holds at least the outermost error itself.
    pub open spec fn wf(&self) -> bool {
        self.layers@.len() >= 1
    }

    /// Snapshot of a chain given by its messages alone, outermost first.
    pub fn new(layers: Vec<String>) -> (r: FailSnapshot)
        requires
            layers@.len() >= 1,
        ensures
            r.wf(),
            r.layers == layers,
            r.name is None,
            r.root_name is None,
            r.trace is None,
    {
        FailSnapshot { layers, name: None, root_name: None, trace: None }
    }
}

/// Maps an optional owned string to its optional text.
pub open spec fn text_of(value: Option<String>) -> Option<Seq<char>> {
    match value {
        Some(s) => Some(s@),
        None => None,
    }
}

/// The "Caused by" lines of a rendered error chain, one per cause message.
pub open spec fn caused_by_lines(causes: Seq<Seq<char>>) -> Seq<char>
    decreases causes.len(),
{
    if causes.len() == 0 {
        Seq::<char>::empty()
    } else {
        caused_by_lines(causes.drop_last()) + "\n    Caused by: "@ + causes.last()
    }
}

/// The rendering of an error chain: the outermost message, one line per
/// cause, and the backtrace when one was captured.
pub open spec fn rendered_fail(layers: Seq<Seq<char>>, trace: Option<Seq<char>>) -> Seq<char> {
    let base = "Error: "@ + layers[0] + caused_by_lines(layers.skip(1));
    match trace {
        None => base,
        Some(t) => base + "\n    Backtrace: "@ + t,
    }
}

/// Format the given error chain for display to the user.
pub fn format_fail(fail: &FailSnapshot) -> (r: String)
    requires
        fail.wf(),
    ensures
        r@ == rendered_fail(fail.layers.deep_view(), text_of(fail.trace)),
{
    let ghost layers_v = fail.layers.deep_view();
    let mut message = String::new();
    message.append("Error: ");
    message.append(fail.layers[0].as_str());
    proof {
        assert(layers_v.subrange(1, 1) =~= Seq::<Seq<char>>::empty());
        assert(message@ =~= "Error: "@ + layers_v[0] + caused_by_lines(layers_v.subrange(1, 1)));
    }
    let n: usize = fail.layers.len();
    let mut i: usize = 1;
    while i < n
        invariant
            1 <= i <= n,
            n == fail.layers@.len(),
            layers_v == fail.layers.deep_view(),
            message@ == "Error: "@ + layers_v[0] + caused_by_lines(layers_v.subrange(1, i as int)),
        decreases n - i,
    {
        message.append("\n    Caused by: ");
        message.append(fail.layers[i].as_str());
        proof {
            let prev = layers_v.subrange(1, i as int);
            let cur = layers_v.subrange(1, i + 1);
            assert(cur.drop_last() =~= prev);
            assert(cur.last() == layers_v[i as int]);
            assert(message@ =~= "Error: "@ + layers_v[0] + caused_by_lines(cur));
        }
        i = i + 1;
    }
    proof {
        assert(layers_v.subrange(1, n as int) =~= layers_v.skip(1));
    }
    match &fail.trace {
        None => message,
        Some(trace) => {
            message.append("\n    Backtrace: ");
            message.append(trace.as_str());
            message
        },
    }
}

/// A serialisable view of an error chain.
pub struct SerializableFail {
    /// Error message.
    pub error: String,
    /// Layers of errors that ultimately caused this error.
    pub layers: Vec<String>,
    /// Optional formatted backtrace to aid debugging.
    pub trace: Option<String>,
    /// Identifier of the reported error variant.
    pub variant: Option<String>,
}

impl SerializableFail {
    /// The serialisable view of a snapshot: the outermost message, the
    /// whole chain, the backtrace and the outermost error's name.
    pub fn from_snapshot(fail: &FailSnapshot) -> (r: SerializableFail)
        requires
            fail.wf(),
        ensures
            r.error@ == fail.layers.deep_view()[0],
            r.layers.deep_view() == fail.layers.deep_view(),
            text_of(r.trace) == text_of(fail.trace),
            text_of(r.variant) == text_of(fail.name),
    {
        SerializableFail {
            error: fail.layers[0].clone(),
            layers: fail.layers.clone(),
            trace: clone_text(&fail.trace),
            variant: clone_text(&fail.name),
        }
    }
}

/// Container for extracted failure information, ready for a structured
/// logging sink as key/value pairs.
pub struct FailureInfo {
    /// Message of the root cause, absent for an error with no cause.
    pub cause: Option<String>,
    /// Name of the root cause, absent for an error with no cause.
    pub cause_name: Option<String>,
    /// How many errors the chain holds.
    pub layers: usize,
    /// Message of the outermost error.
    pub message: String,
    /// Name of the outermost error, when it has one.
    pub name: Option<String>,
    /// Rendered backtrace, when one was captured.
    pub trace: Option<String>,
}

/// Extract failure information to be added to structured logging: the
/// outermost message and name, the chain length, and, for chains of more
/// than one error, the message and name of the root cause.
pub fn failure_info(fail: &FailSnapshot) -> (r: FailureInfo)
    requires
        fail.wf(),
    ensures
        r.message@ == fail.layers.deep_view()[0],
        r.layers == fail.layers@.len(),
        fail.layers@.len() > 1 ==> text_of(r.cause) == Some(fail.layers.deep_view().last()),
        fail.layers@.len() == 1 ==> r.cause is None,
        fail.layers@.len() > 1 ==> text_of(r.cause_name) == text_of(fail.root_name),
        fail.layers@.len() == 1 ==> r.cause_name is None,
        text_of(r.name) == text_of(fail.name),
        text_of(r.trace) == text_of(fail.trace),
{
    let n: usize = fail.layers.len();
    let (cause, cause_name) = if n > 1 {
        (Some(fail.layers[n - 1].clone()), clone_text(&fail.root_name))
    } else {
        (None, None)
    };
    FailureInfo {
        cause,
        cause_name,
        layers: n,
        message: fail.layers[0].clone(),
        name: clone_text(&fail.name),
        trace: clone_text(&fail.trace),
    }
}

/// Copy an optional string, keeping its text.
fn clone_text(value: &Option<String>) -> (r: Option<String>)
    ensures
        text_of(r) == text_of(*value),
{
    match value {
        Some(s) => Some(s.clone()),
        None => None,
    }
}

} // verus!
