//! Configuration of the distributed-tracing backends, and the errors the
//! tracer factory reports.
use vstd::prelude::*;

use vstd::string::StringExecFns;

verus! {

/// Supported tracing backends and their configuration.
#[derive(Clone, Eq, PartialEq, Hash, Debug)]
pub enum Config {
    /// A tracer that discards all spans; used when integration with
    /// distributed tracing is not needed.
    Noop,
    /// Zipkin tracer backend.
    Zipkin(ZipkinConfig),
}

impl Default for Config {
    fn default() -> (r: Config)
        ensures
            r == Config::Noop,
    {
        Config::Noop
    }
}

/// Zipkin specific configuration options.
#[derive(Clone, Eq, PartialEq, Hash, Debug)]
pub enum ZipkinConfig {
    /// Zipkin HTTP transport options.
    Http(ZipkinHttp),
}

/// Zipkin HTTP transport options.
#[derive(Clone, Eq, PartialEq, Hash, Debug)]
pub struct ZipkinHttp {
    /// Number of buffered spans that should trigger a flush.
    pub flush_count: usize,
    /// Maximum delay between span flushes in milliseconds.
    pub flush_timeout_millis: Option<u64>,
    /// Custom headers to attach to POST requests.
    pub headers: Vec<(String, String)>,
    /// Target URL to post spans to.
    pub url: String,
}

impl ZipkinHttp {
    /// Spans are flushed every 100 buffered spans unless configured
    /// otherwise.
    pub fn default_flush_count() -> (r: usize)
        ensures
            r == 100,
    {
        100
    }
}

/// What the span-collector thread saw when polling its span channel.
#[derive(Clone, Copy, Eq, PartialEq, Debug)]
pub enum SpanPoll {
    /// A finished span arrived.
    Received,
    /// No span arrived within the flush interval.
    TimedOut,
    /// The span channel is gone: the tracer was dropped.
    Disconnected,
}

/// What the span-collector thread does after one poll.
#[derive(Clone, Copy, Eq, PartialEq, Debug)]
pub enum CollectorStep {
    /// Hand the collector the span, when one arrived, and let it flush.
    Process { received: bool },
    /// Stop the collector thread, which in turn shuts the process down.
    Stop,
}

/// Decision table of the span-collector loop: a received span is
/// processed, a timeout still runs a flush round with nothing received,
/// and a closed channel stops the collector.
pub fn span_poll_step(poll: SpanPoll) -> (r: CollectorStep)
    ensures
        poll is Received ==> r == (CollectorStep::Process { received: true }),
        poll is TimedOut ==> r == (CollectorStep::Process { received: false }),
        poll is Disconnected ==> r == CollectorStep::Stop,
{
    match poll {
        SpanPoll::Received => CollectorStep::Process { received: true },
        SpanPoll::TimedOut => CollectorStep::Process { received: false },
        SpanPoll::Disconnected => CollectorStep::Stop,
    }
}

/// Error information returned by the tracer factory.
#[derive(Clone, Eq, PartialEq, Hash, Debug)]
pub enum Error {
    /// The tracer configuration is invalid; the detail says how.
    Config(String),
    /// The named background thread could not be spawned.
    ThreadSpawn(String),
}

impl Error {
    /// The error rendered for display to the user.
    pub fn message(&self) -> (r: String)
        ensures
            self matches Error::Config(detail) ==> r@ == "configuration error: "@ + detail@,
            self matches Error::ThreadSpawn(name) ==> r@ == "unable to spawn "@ + name@
                + " thread"@,
    {
        match self {
            Error::Config(detail) => {
                let mut message = String::new();
                message.append("configuration error: ");
                message.append(detail.as_str());
                message
            },
            Error::ThreadSpawn(name) => {
                let mut message = String::new();
                message.append("unable to spawn ");
                message.append(name.as_str());
                message.append(" thread");
                proof {
                    assert(message@ =~= "unable to spawn "@ + name@ + " thread"@);
                }
                message
            },
        }
    }
}

} // verus!
