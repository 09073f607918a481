//! HTTP-facing helpers: the error types of the web utilities, the
//! severity mapping and request metadata captured when a response is
//! reported to the error tracker, and the extraction of request and
//! response attributes used as metric labels.
use vstd::prelude::*;

use crate::logging::lex_le;
use crate::rndid::hex_digit;
use vstd::string::StringExecFns;

verus! {

/// Exhaustive list of possible errors emitted by the web utilities.
#[derive(Clone, Eq, PartialEq, Hash, Debug)]
pub enum ErrorKind {
    /// The tracing context could not be extracted from a request.
    ContextExtract(String),
    /// The tracing context could not be injected into a response.
    ContextInject(String),
    /// A header holds an invalid value; the detail names the header.
    HeaderValue(String),
}

impl ErrorKind {
    /// The machine-readable name of the error kind.
    pub fn kind_name(&self) -> (r: Option<&str>)
        ensures
            r is Some,
            self is ContextExtract ==> r.unwrap()@ == "ContextExtract"@,
            self is ContextInject ==> r.unwrap()@ == "ContextInject"@,
            self is HeaderValue ==> r.unwrap()@ == "HeaderValue"@,
    {
        let name = match self {
            ErrorKind::ContextExtract(_) => "ContextExtract",
            ErrorKind::ContextInject(_) => "ContextInject",
            ErrorKind::HeaderValue(_) => "HeaderValue",
        };
        Some(name)
    }

    /// The error kind rendered for display to the user.
    pub fn message(&self) -> (r: String)
        ensures
            self matches ErrorKind::ContextExtract(detail) ==> r@
                == "unable to extract trace context: "@ + detail@,
            self matches ErrorKind::ContextInject(detail) ==> r@
                == "unable to inject trace context: "@ + detail@,
            self matches ErrorKind::HeaderValue(header) ==> r@ == "invalid header value for "@
                + header@,
    {
        let mut message = String::new();
        match self {
            ErrorKind::ContextExtract(detail) => {
                message.append("unable to extract trace context: ");
                message.append(detail.as_str());
            },
            ErrorKind::ContextInject(detail) => {
                message.append("unable to inject trace context: ");
                message.append(detail.as_str());
            },
            ErrorKind::HeaderValue(header) => {
                message.append("invalid header value for ");
                message.append(header.as_str());
            },
        }
        message
    }
}

/// Error information returned by the web utilities in case of errors.
#[derive(Clone, Eq, PartialEq, Hash, Debug)]
pub struct Error {
    kind: ErrorKind,
}

impl Error {
    /// The kind this error carries.
    pub closed spec fn spec_kind(&self) -> ErrorKind {
        self.kind
    }

    /// An error of the given kind.
    pub fn new(kind: ErrorKind) -> (r: Error)
        ensures
            r.spec_kind() == kind,
    {
        Error { kind }
    }

    /// Read the kind of this error.
    pub fn kind(&self) -> (r: &ErrorKind)
        ensures
            *r == self.spec_kind(),
    {
        &self.kind
    }
}

/// Errors related to HTTP protocol logic.
#[derive(Clone, Eq, PartialEq, Hash, Debug)]
pub enum HttpError {
    /// An HTTP header was sent with an invalid value; the detail names
    /// the header.
    HeaderValueInvalid(String),
}

impl HttpError {
    /// Error indicating an HTTP header was sent with an invalid value.
    pub fn header_value_invalid(header: &str) -> (r: HttpError)
        ensures
            r matches HttpError::HeaderValueInvalid(h) && h@ == header@,
    {
        HttpError::HeaderValueInvalid(header.to_owned())
    }

    /// The error rendered for display to the user.
    pub fn message(&self) -> (r: String)
        ensures
            self matches HttpError::HeaderValueInvalid(header) ==> r@
                == "invalid value for HTTP header '"@ + header@ + "'"@,
    {
        match self {
            HttpError::HeaderValueInvalid(header) => {
                let mut message = String::new();
                message.append("invalid value for HTTP header '");
                message.append(header.as_str());
                message.append("'");
                proof {
                    assert(message@ =~= "invalid value for HTTP header '"@ + header@ + "'"@);
                }
                message
            },
        }
    }
}

/// Errors related to tracing context logic.
#[derive(Clone, Copy, Eq, PartialEq, Hash, Debug)]
pub enum TracingContextError {
    /// The tracing context could not be extracted from a request.
    Extract,
    /// The tracing context could not be injected into a response.
    Inject,
}

impl TracingContextError {
    /// The error rendered for display to the user.
    pub fn message(&self) -> (r: String)
        ensures
            self is Extract ==> r@ == "failed to extract tracing context"@,
            self is Inject ==> r@ == "failed to inject tracing context"@,
    {
        match self {
            TracingContextError::Extract => String::from_str("failed to extract tracing context"),
            TracingContextError::Inject => String::from_str("failed to inject tracing context"),
        }
    }
}

/// Severity of an event reported to the error tracker.
#[derive(Clone, Copy, Eq, PartialEq, Hash, Debug)]
pub enum EventLevel {
    Info,
    Warning,
    Error,
}

/// The severity an HTTP status code is reported with: success and
/// redirection are informational, client errors are warnings and server
/// errors are errors.
pub fn event_level(code: u16) -> (r: EventLevel)
    ensures
        code < 400 ==> r == EventLevel::Info,
        400 <= code < 500 ==> r == EventLevel::Warning,
        500 <= code ==> r == EventLevel::Error,
{
    if code < 400 {
        EventLevel::Info
    } else if code < 500 {
        EventLevel::Warning
    } else {
        EventLevel::Error
    }
}

/// Severity mapping used when reporting responses: the same mapping as
/// [`event_level`].
pub fn sentry_level_for_code(code: u16) -> (r: EventLevel)
    ensures
        code < 400 ==> r == EventLevel::Info,
        400 <= code < 500 ==> r == EventLevel::Warning,
        500 <= code ==> r == EventLevel::Error,
{
    event_level(code)
}

/// Middleware that reports response events to the error tracker.
///
/// Events are captured for responses whose status code is at least
/// `report_code`, on a hub derived from the main hub, or from the current
/// hub when `current_hub` is set (used by tests to inspect events).
pub struct SentryMiddleware {
    current_hub: bool,
    report_code: u16,
}

impl SentryMiddleware {
    /// Whether the middleware derives request hubs from the current hub.
    pub closed spec fn spec_current_hub(&self) -> bool {
        self.current_hub
    }

    /// Status codes at or above this are reported.
    pub closed spec fn spec_report_code(&self) -> u16 {
        self.report_code
    }

    /// Capture events for status codes at least `report_code`, on hubs
    /// derived from the main hub.
    pub fn new(report_code: u16) -> (r: SentryMiddleware)
        ensures
            r.spec_report_code() == report_code,
            !r.spec_current_hub(),
    {
        SentryMiddleware { current_hub: false, report_code }
    }

    /// Capture events for status codes at least `report_code`, on hubs
    /// derived from the current hub.
    pub fn with_current_hub(report_code: u16) -> (r: SentryMiddleware)
        ensures
            r.spec_report_code() == report_code,
            r.spec_current_hub(),
    {
        let mut middleware = SentryMiddleware::new(report_code);
        middleware.current_hub = true;
        middleware
    }

    /// Whether the middleware derives request hubs from the current hub.
    pub fn current_hub(&self) -> (r: bool)
        ensures
            r == self.spec_current_hub(),
    {
        self.current_hub
    }

    /// Whether a response with the given status code is reported.
    pub fn reports(&self, code: u16) -> (r: bool)
        ensures
            r == (code >= self.spec_report_code()),
    {
        code >= self.report_code
    }
}

/// Middleware that sends non-success responses to the error tracker:
/// responses with a status below `status_above` are ignored.
pub struct SentryMiddlewere {
    status_above: u16,
}

impl SentryMiddlewere {
    /// Status codes at or above this are reported.
    pub closed spec fn spec_status_above(&self) -> u16 {
        self.status_above
    }

    /// Capture events for status codes at least `status_above`.
    pub fn new(status_above: u16) -> (r: SentryMiddlewere)
        ensures
            r.spec_status_above() == status_above,
    {
        SentryMiddlewere { status_above }
    }

    /// Whether a response with the given status code is reported.
    pub fn reports(&self, code: u16) -> (r: bool)
        ensures
            r == (code >= self.spec_status_above()),
    {
        code >= self.status_above
    }
}

/// The decimal rendering of a number, most significant digit first.
pub open spec fn decimal_of(value: nat) -> Seq<char>
    decreases value,
{
    if value < 10 {
        seq![hex_digit(value)]
    } else {
        decimal_of(value / 10).push(hex_digit(value % 10))
    }
}

/// The path segments of a request joined with `/` separators.
pub open spec fn slash_join(segments: Seq<Seq<char>>) -> Seq<char>
    decreases segments.len(),
{
    if segments.len() == 0 {
        Seq::<char>::empty()
    } else if segments.len() == 1 {
        segments[0]
    } else {
        slash_join(segments.drop_last()) + "/"@ + segments.last()
    }
}

/// Extracts the request method as an owned string.
pub fn request_method(method: &str) -> (r: String)
    ensures
        r@ == method@,
{
    method.to_owned()
}

/// Extracts the request path as a string: the path segments joined with
/// `/` separators, under a leading `/`.
pub fn request_path(segments: &Vec<String>) -> (r: String)
    ensures
        r@ == "/"@ + slash_join(segments.deep_view()),
{
    let ghost segments_v = segments.deep_view();
    let mut path = String::new();
    path.append("/");
    let n: usize = segments.len();
    let mut i: usize = 0;
    proof {
        assert(path@ =~= "/"@ + slash_join(segments_v.subrange(0, 0)));
    }
    while i < n
        invariant
            i <= n,
            n == segments@.len(),
            segments_v == segments.deep_view(),
            path@ == "/"@ + slash_join(segments_v.subrange(0, i as int)),
        decreases n - i,
    {
        if i > 0 {
            path.append("/");
        }
        path.append(segments[i].as_str());
        proof {
            let cur = segments_v.subrange(0, i + 1);
            assert(cur.drop_last() =~= segments_v.subrange(0, i as int));
            assert(cur.last() == segments_v[i as int]);
            if i == 0 {
                assert(cur.len() == 1);
                assert(cur[0] == segments_v[0]);
            }
            assert(path@ =~= "/"@ + slash_join(cur));
        }
        i = i + 1;
    }
    proof {
        assert(segments_v.subrange(0, n as int) =~= segments_v);
    }
    path
}

/// Renders a number in decimal.
fn u16_decimal(value: u16) -> (r: String)
    ensures
        r@ == decimal_of(value as nat),
    decreases value,
{
    if value < 10 {
        let mut digits = String::new();
        digits.push(crate::rndid::hex_digit_char(value as u8));
        proof {
            assert(digits@ =~= seq![hex_digit(value as nat)]);
        }
        digits
    } else {
        let mut digits = u16_decimal(value / 10);
        digits.push(crate::rndid::hex_digit_char((value % 10) as u8));
        digits
    }
}

/// Extracts the response status code as a decimal string; a response must
/// have a status set.
pub fn response_status(status: Option<u16>) -> (r: String)
    requires
        status is Some,
    ensures
        r@ == decimal_of(status.unwrap() as nat),
{
    match status {
        Some(code) => u16_decimal(code),
        None => String::new(),
    }
}

/// The message of a reported response event: the response's own error
/// rendering when it carries one, or `HTTP` followed by the status line.
pub fn event_message(error: Option<String>, status: &str) -> (r: String)
    ensures
        error matches Some(e) ==> r@ == e@,
        error is None ==> r@ == "HTTP "@ + status@,
{
    match error {
        Some(message) => message,
        None => {
            let mut message = String::new();
            message.append("HTTP ");
            message.append(status);
            message
        },
    }
}

/// The resource path of an endpoint under an API root: the root's prefix
/// alone for the empty or `/` path, otherwise the prefix and the path with
/// exactly one `/` between them.
pub fn root_resource_path(prefix: &str, path: &str) -> (r: String)
    ensures
        path@.len() == 0 || path@ == "/"@ ==> r@ == prefix@,
        path@.len() > 0 && path@ != "/"@ && path@[0] == '/' ==> r@ == prefix@ + path@,
        path@.len() > 0 && path@[0] != '/' ==> r@ == prefix@ + "/"@ + path@,
{
    proof {
        reveal_strlit("/");
    }
    let n: usize = path.unicode_len();
    if n == 0 {
        return prefix.to_owned();
    }
    let first = path.get_char(0);
    if n == 1 && first == '/' {
        proof {
            assert(path@ =~= "/"@);
        }
        return prefix.to_owned();
    }
    let mut resource = String::new();
    resource.append(prefix);
    if first != '/' {
        resource.append("/");
    }
    resource.append(path);
    proof {
        if first == '/' {
            assert(path@ != "/"@);
        }
    }
    resource
}

/// Whether a scope path holds a path variable (an opening brace), which
/// scoped registration rejects: a variable could match over the paths of
/// other scopes.
pub fn scope_path_has_variable(path: &str) -> (r: bool)
    ensures
        r == path@.contains('{'),
{
    let n: usize = path.unicode_len();
    let mut i: usize = 0;
    while i < n
        invariant
            i <= n,
            n == path@.len(),
            forall|j: int| 0 <= j < i ==> path@[j] != '{',
        decreases n - i,
    {
        if path.get_char(i) == '{' {
            proof {
                assert(path@.contains('{')) by {
                    assert(path@[i as int] == '{');
                }
            }
            return true;
        }
        i = i + 1;
    }
    proof {
        assert(!path@.contains('{'));
    }
    false
}

/// Scope paths ordered so that no scope shadows a longer one it prefixes:
/// by path, descending.
pub open spec fn scopes_sorted_desc(paths: Seq<Seq<char>>) -> bool {
    forall|i: int, j: int|
        0 <= i <= j < paths.len() ==> #[trigger] lex_le(paths[j], paths[i])
}

/// Order the paths of registered scopes for mounting.
///
/// Route matching visits scopes in registration order, so a scope whose
/// path is a prefix of another (say `/api` next to `/api/v1`) must be
/// mounted after it or it would match everything under the prefix. Sorting
/// the paths in descending order mounts every scope before its prefixes.
pub fn order_scope_paths(paths: Vec<String>) -> (r: Vec<String>)
    ensures
        scopes_sorted_desc(r.deep_view()),
        r@.to_multiset() == paths@.to_multiset(),
{
    broadcast use vstd::seq_lib::group_to_multiset_ensures;

    let ghost orig = paths@;
    let mut rest = paths;
    let mut out: Vec<String> = Vec::new();
    proof {
        assert(out@.to_multiset().add(rest@.to_multiset()) =~= orig.to_multiset());
    }
    while rest.len() > 0
        invariant
            out@.to_multiset().add(rest@.to_multiset()) == orig.to_multiset(),
            forall|i: int, j: int|
                0 <= i <= j < out@.len() ==> #[trigger] lex_le(out@[j]@, out@[i]@),
            forall|i: int, j: int|
                0 <= i < out@.len() && 0 <= j < rest@.len() ==> #[trigger] lex_le(
                    rest@[j]@,
                    out@[i]@,
                ),
        decreases rest@.len(),
    {
        let mut best: usize = 0;
        let mut k: usize = 1;
        proof {
            crate::logging::lemma_lex_le_refl(rest@[0]@);
        }
        while k < rest.len()
            invariant
                rest@.len() > 0,
                (best as int) < rest@.len(),
                k <= rest@.len(),
                forall|j: int| 0 <= j < k ==> #[trigger] lex_le(rest@[j]@, rest@[best as int]@),
            decreases rest@.len() - k,
        {
            if crate::logging::str_le(rest[best].as_str(), rest[k].as_str()) {
                proof {
                    assert forall|j: int| 0 <= j < k + 1 implies #[trigger] lex_le(
                        rest@[j]@,
                        rest@[k as int]@,
                    ) by {
                        if j < k {
                            crate::logging::lemma_lex_le_trans(
                                rest@[j]@,
                                rest@[best as int]@,
                                rest@[k as int]@,
                            );
                        } else {
                            crate::logging::lemma_lex_le_refl(rest@[k as int]@);
                        }
                    }
                }
                best = k;
            } else {
                proof {
                    crate::logging::lemma_lex_le_total(rest@[best as int]@, rest@[k as int]@);
                    crate::logging::lemma_lex_le_refl(rest@[k as int]@);
                }
            }
            k = k + 1;
        }
        let ghost rest_before = rest@;
        let item = rest.remove(best);
        let ghost picked = item;
        let ghost out_before = out@;
        out.push(item);
        proof {
            broadcast use vstd::seq_lib::group_to_multiset_ensures;

            assert((best as int) < rest_before.len());
            assert(rest_before[best as int] == picked);
            assert(rest_before.contains(picked));
            assert(rest_before.to_multiset().count(picked) > 0);
            assert(out@.to_multiset().add(rest@.to_multiset()) =~= orig.to_multiset());
            assert forall|i: int, j: int|
                0 <= i < out@.len() && 0 <= j < rest@.len() implies #[trigger] lex_le(
                rest@[j]@,
                out@[i]@,
            ) by {
                let j_orig: int = if j < best as int {
                    j
                } else {
                    j + 1
                };
                assert(rest@[j] == rest_before[j_orig]);
                if i < out_before.len() {
                    assert(lex_le(rest_before[j_orig]@, out_before[i]@));
                } else {
                    assert(out@[i] == picked);
                    assert(lex_le(rest_before[j_orig]@, picked@));
                }
            }
            assert forall|i: int, j: int| 0 <= i <= j < out@.len() implies #[trigger] lex_le(
                out@[j]@,
                out@[i]@,
            ) by {
                if j < out_before.len() {
                    assert(lex_le(out_before[j]@, out_before[i]@));
                } else if i < out_before.len() {
                    assert(out@[j] == picked);
                    assert(lex_le(picked@, out_before[i]@));
                } else {
                    assert(out@[j] == picked);
                    crate::logging::lemma_lex_le_refl(picked@);
                }
            }
        }
    }
    proof {
        assert forall|i: int, j: int| 0 <= i <= j < out.deep_view().len() implies #[trigger] lex_le(
            out.deep_view()[j],
            out.deep_view()[i],
        ) by {
            assert(out.deep_view()[j] == out@[j]@);
            assert(out.deep_view()[i] == out@[i]@);
            assert(lex_le(out@[j]@, out@[i]@));
        }
    }
    out
}

/// Request metadata reported to the error tracker with an event.
pub struct RequestContext {
    /// Header names and values, in the order the request carries them.
    pub headers: Vec<(String, String)>,
    /// The request method.
    pub method: String,
    /// The request URL.
    pub url: String,
}

/// Package request metadata for the error tracker.
pub fn request_context(method: String, url: String, headers: Vec<(String, String)>) -> (r:
    RequestContext)
    ensures
        r.method == method,
        r.url == url,
        r.headers == headers,
{
    RequestContext { headers, method, url }
}

} // verus!
