//! Coordinator for the graceful shutdown of a process hosting background
//! worker threads.
//!
//! The hosting process registers worker handles (required or optional) and
//! zero-argument teardown callbacks, then blocks on [`Upkeep::keepalive`].
//! The coordinator multiplexes a signal-notification channel and the
//! completion channel of every registered worker; on the first relevant
//! event it broadcasts stop requests, runs the callbacks once in
//! registration order, joins the remaining workers and reports whether the
//! exit was clean (no worker panicked).
//!
//! Every step of the shutdown sequence is recorded in an append-only
//! journal of [`UpkeepEvent`] entries; the contracts below pin the exact
//! shape of that journal, which is how ordering guarantees (stop requests
//! and callbacks before the final join sweep) are stated and proved.
use vstd::prelude::*;

use crossbeam_channel::Receiver;
use crossbeam_channel::Sender;
use humthreads::Error as ThreadError;
use humthreads::MapThread;
use humthreads::Thread;

verus! {

#[verifier::external_type_specification]
#[verifier::external_body]
#[verifier::reject_recursive_types(T)]
pub struct ExThread<T: Send + 'static>(Thread<T>);

#[verifier::external_type_specification]
#[verifier::external_body]
#[verifier::reject_recursive_types(T)]
pub struct ExMapThread<T: Send + 'static>(MapThread<T>);

#[verifier::external_type_specification]
#[verifier::external_body]
#[verifier::reject_recursive_types(T)]
pub struct ExSender<T>(Sender<T>);

#[verifier::external_type_specification]
#[verifier::external_body]
#[verifier::reject_recursive_types(T)]
pub struct ExReceiver<T>(Receiver<T>);

#[verifier::external_type_specification]
#[verifier::external_body]
pub struct ExThreadError(ThreadError);

/// Result of joining a worker thread.
#[derive(Clone, Debug)]
pub enum JoinOutcome {
    /// The thread's body returned normally.
    Clean,
    /// The thread's body panicked; the panic payload, when it is text,
    /// is carried along.
    Panicked { message: String },
    /// The thread had already been joined (benign double detection).
    AlreadyJoined,
}

/// Why the shutdown sequence began.
#[derive(Clone, Debug)]
pub enum ShutdownTrigger {
    /// A termination signal was delivered.
    Signal,
    /// A required worker exited cleanly.
    RequiredExit,
    /// A worker panicked; the panic message is carried along.
    Panic { message: String },
    /// The hosting process asked for shutdown directly.
    Requested,
}

/// One entry of the coordinator's shutdown journal.
#[derive(Clone, Debug)]
pub enum UpkeepEvent {
    /// The shutdown sequence began for the recorded reason.
    Trigger { trigger: ShutdownTrigger },
    /// The worker registered at `index` (counting the workers still
    /// registered when shutdown began) was asked to stop.
    StopRequested { index: usize },
    /// The callback registered at `index` was run.
    CallbackRun { index: usize },
    /// The worker at `index` was joined during the final sweep.
    Joined { index: usize, outcome: JoinOutcome },
}

/// Teardown actions stored for execution when shutdown begins.
///
/// Verus cannot hold boxed `dyn Fn()` values, so the storage is opaque;
/// `callback_count` names how many actions a list holds and the methods
/// below are trusted to maintain it.
#[verifier::external_body]
pub struct CallbackList {
    items: Vec<Box<dyn Fn()>>,
}

pub uninterp spec fn callback_count(list: CallbackList) -> nat;

impl CallbackList {
    /// Relies on Vec::new: a new list holds no actions.
    #[verifier::external_body]
    fn new() -> (r: CallbackList)
        ensures
            callback_count(r) == 0,
    {
        CallbackList { items: Vec::new() }
    }

    /// Relies on Vec::push: the action is appended at the end of the list.
    #[verifier::external_body]
    fn push<F: Fn() + 'static>(&mut self, callback: F)
        ensures
            callback_count(*final(self)) == callback_count(*old(self)) + 1,
    {
        self.items.push(Box::new(callback));
    }

    /// Relies on Vec::len.
    #[verifier::external_body]
    fn len(&self) -> (r: usize)
        ensures
            r == callback_count(*self),
    {
        self.items.len()
    }

    /// Runs the action stored at `index`, in place, leaving the list as it
    /// is. Relies on Vec indexing; a callback that panics propagates the
    /// panic to the caller.
    #[verifier::external_body]
    fn run_at(&self, index: usize)
        requires
            index < callback_count(*self),
    {
        (self.items[index])();
    }
}

/// A registered worker handle together with its shutdown policy.
pub struct ThreadMeta {
    /// Handle of the worker, with the join result discarded.
    pub handle: MapThread<()>,
    /// Whether a clean exit of this worker must shut the process down.
    pub required: bool,
}

/// Relies on crossbeam_channel::unbounded: the two halves of one channel.
#[verifier::external_body]
fn signal_channel() -> (Sender<()>, Receiver<()>) {
    crossbeam_channel::unbounded()
}

/// Relies on humthreads::Thread::map: the same thread handle, with the
/// value returned by the thread's body discarded on join.
#[verifier::external_body]
fn discard_result<T: Send + 'static>(thread: Thread<T>) -> (r: MapThread<()>) {
    thread.map(|_| ())
}

/// Relies on humthreads::MapThread::request_shutdown: sets the cooperative
/// stop flag the worker polls; never blocks and never fails.
#[verifier::external_body]
fn request_stop(handle: &MapThread<()>) {
    handle.request_shutdown();
}

/// Relies on humthreads::MapThread::join: blocks until the worker's thread
/// exits; an error describes why no value was produced.
#[verifier::external_body]
fn join_worker(handle: &MapThread<()>) -> (r: Result<(), ThreadError>) {
    handle.join()
}

/// Relies on humthreads::Error::kind: a `Join` error wraps the panic
/// payload of the thread's body (rendered to text when it is a string) and
/// a `JoinedAlready` error reports a second join of the same handle; those
/// are the only kinds a join returns.
#[verifier::external_body]
fn classify_join_error(error: &ThreadError) -> (r: JoinOutcome) {
    match error.kind() {
        humthreads::ErrorKind::Join(payload) => {
            let message = match payload.lock() {
                Ok(panic) => match panic.downcast_ref::<&str>() {
                    Some(text) => String::from(*text),
                    None => panic.downcast_ref::<String>().cloned().unwrap_or_default(),
                },
                Err(_) => String::new(),
            };
            JoinOutcome::Panicked { message }
        }
        _ => JoinOutcome::AlreadyJoined,
    }
}

/// Relies on crossbeam_channel::Select (new, recv, ready) and on
/// humthreads::MapThread::select_add: blocks until one registered source is
/// ready and returns its index; sources are indexed in registration order,
/// so 0 is the signal receiver and `i + 1` the completion channel of
/// `threads[i]`.
#[verifier::external_body]
fn wait_for_event(signal: &Receiver<()>, threads: &Vec<ThreadMeta>) -> (r: usize)
    ensures
        r <= threads@.len(),
{
    let mut set = crossbeam_channel::Select::new();
    set.recv(signal);
    for meta in threads.iter() {
        meta.handle.select_add(&mut set);
    }
    set.ready()
}

/// Join a worker handle and classify what the join reported.
fn join_outcome(handle: &MapThread<()>) -> JoinOutcome {
    match join_worker(handle) {
        Ok(()) => JoinOutcome::Clean,
        Err(error) => classify_join_error(&error),
    }
}

/// What the waiting phase does after a worker's completion source fired.
#[derive(Clone, Debug)]
pub enum WaitStep {
    /// Drop the worker from the registry and keep waiting.
    Remove,
    /// Begin the shutdown sequence for the given reason.
    Begin { trigger: ShutdownTrigger },
}

/// Decision table of the waiting phase, applied when the completion source
/// of a worker fires: a clean exit of a required worker and any panic begin
/// the shutdown sequence; a clean exit of an optional worker and a benign
/// double join only remove the worker from the registry.
pub fn decide_wait(required: bool, outcome: JoinOutcome) -> (r: WaitStep)
    ensures
        outcome is Clean && required ==> r == (WaitStep::Begin {
            trigger: ShutdownTrigger::RequiredExit,
        }),
        outcome is Clean && !required ==> r == WaitStep::Remove,
        outcome matches JoinOutcome::Panicked { message } ==> r == (WaitStep::Begin {
            trigger: ShutdownTrigger::Panic { message },
        }),
        outcome is AlreadyJoined ==> r == WaitStep::Remove,
{
    match outcome {
        JoinOutcome::Clean => {
            if required {
                WaitStep::Begin { trigger: ShutdownTrigger::RequiredExit }
            } else {
                WaitStep::Remove
            }
        }
        JoinOutcome::Panicked { message } => {
            WaitStep::Begin { trigger: ShutdownTrigger::Panic { message } }
        }
        JoinOutcome::AlreadyJoined => WaitStep::Remove,
    }
}

/// Abstract state of a coordinator: the shutdown policy of each registered
/// worker in registration order, how many callbacks are registered, the
/// journal so far, whether the shutdown sequence has run, and whether the
/// signal-notification sender is still available.
pub ghost struct UpkeepView {
    pub required: Seq<bool>,
    pub callbacks: nat,
    pub events: Seq<UpkeepEvent>,
    pub shutdown_done: bool,
    pub has_signal_sender: bool,
}

/// True of journal entries that witness a panic.
pub open spec fn is_panic_event(event: UpkeepEvent) -> bool {
    ||| event matches UpkeepEvent::Trigger { trigger: ShutdownTrigger::Panic { .. } }
    ||| event matches UpkeepEvent::Joined { outcome: JoinOutcome::Panicked { .. }, .. }
}

/// The stop-request entries for workers `0 .. n`, in order.
pub open spec fn stop_events(n: nat) -> Seq<UpkeepEvent> {
    Seq::new(n, |i: int| UpkeepEvent::StopRequested { index: i as usize })
}

/// The callback entries for callbacks `0 .. n`, in order.
pub open spec fn callback_events(n: nat) -> Seq<UpkeepEvent> {
    Seq::new(n, |i: int| UpkeepEvent::CallbackRun { index: i as usize })
}

/// True when `joins` records one join per worker `0 .. n`, in order.
pub open spec fn join_records(joins: Seq<UpkeepEvent>, n: nat) -> bool {
    &&& joins.len() == n
    &&& forall|i: int|
        0 <= i < n ==> ((#[trigger] joins[i]) matches UpkeepEvent::Joined { index, .. }
            && index == i)
}

/// The journal entries appended by the shutdown sequence when it runs for
/// `trigger` over `workers` still-registered workers and `callbacks`
/// registered callbacks.
pub open spec fn shutdown_records(trigger: ShutdownTrigger, workers: nat, callbacks: nat) -> Seq<
    UpkeepEvent,
> {
    seq![UpkeepEvent::Trigger { trigger }] + stop_events(workers) + callback_events(callbacks)
}

/// Shape of the journal entries one `keepalive` call appends when it ran
/// the shutdown sequence itself: the sequence ran for `trigger` over the
/// `workers` workers still registered when shutdown began and `callbacks`
/// callbacks, and then each of those workers was joined, in order.
pub open spec fn keepalive_records(
    appended: Seq<UpkeepEvent>,
    trigger: ShutdownTrigger,
    workers: nat,
    callbacks: nat,
) -> bool {
    &&& appended.len() == 1 + workers + callbacks + workers
    &&& appended.subrange(0, (1 + workers + callbacks) as int) == shutdown_records(
        trigger,
        workers,
        callbacks,
    )
    &&& join_records(appended.skip((1 + workers + callbacks) as int), workers)
}

/// The journal entries one `keepalive` call appends have this shape, for
/// some trigger and some count of workers still registered when shutdown
/// began (optional workers may have left the registry while waiting).
pub open spec fn keepalive_shape(
    appended: Seq<UpkeepEvent>,
    workers_bound: nat,
    callbacks: nat,
) -> bool {
    exists|trigger: ShutdownTrigger, workers: nat|
        workers <= workers_bound && #[trigger] keepalive_records(
            appended,
            trigger,
            workers,
            callbacks,
        )
}

impl Default for Upkeep {
    /// Same as [`Upkeep::new`].
    fn default() -> (r: Upkeep)
        ensures
            r@.required == Seq::<bool>::empty(),
            r@.callbacks == 0,
            r@.events == Seq::<UpkeepEvent>::empty(),
            !r@.shutdown_done,
            r@.has_signal_sender,
    {
        Upkeep::new()
    }
}

/// Ordering laws of the journal entries appended by one `keepalive` call
/// that ran the shutdown sequence itself: the trigger is recorded exactly
/// once, first; every worker still registered when shutdown began is asked
/// to stop exactly once, in registration order, before any callback runs;
/// every callback runs exactly once, in registration order; and workers
/// are joined exactly once each, in order, strictly after every stop
/// request and every callback.
pub proof fn lemma_keepalive_journal_order(
    appended: Seq<UpkeepEvent>,
    trigger: ShutdownTrigger,
    workers: nat,
    callbacks: nat,
)
    requires
        keepalive_records(appended, trigger, workers, callbacks),
    ensures
        appended.len() == 1 + workers + callbacks + workers,
        appended[0] == (UpkeepEvent::Trigger { trigger }),
        forall|j: int|
            0 <= j < appended.len() ==> (((#[trigger] appended[j]) is Trigger) <==> j == 0),
        forall|j: int|
            0 <= j < appended.len() ==> (((#[trigger] appended[j]) is StopRequested) <==> 1 <= j
                < 1 + workers),
        forall|j: int|
            1 <= j < 1 + workers ==> #[trigger] appended[j] == (UpkeepEvent::StopRequested {
                index: (j - 1) as usize,
            }),
        forall|j: int|
            0 <= j < appended.len() ==> (((#[trigger] appended[j]) is CallbackRun) <==> 1 + workers
                <= j < 1 + workers + callbacks),
        forall|j: int|
            1 + workers <= j < 1 + workers + callbacks ==> #[trigger] appended[j]
                == (UpkeepEvent::CallbackRun { index: (j - 1 - workers) as usize }),
        forall|j: int|
            0 <= j < appended.len() ==> (((#[trigger] appended[j]) is Joined) <==> 1 + workers
                + callbacks <= j),
        forall|x: int|
            0 <= x < workers ==> ((#[trigger] appended[1 + workers + callbacks + x]) matches
            UpkeepEvent::Joined { index, .. } && index == x),
        forall|i: int, j: int|
            0 <= i < appended.len() && 0 <= j < appended.len() && (#[trigger] appended[i]) is StopRequested
                && (#[trigger] appended[j]) is CallbackRun ==> i < j,
        forall|i: int, j: int|
            0 <= i < appended.len() && 0 <= j < appended.len() && (#[trigger] appended[i]) is CallbackRun
                && (#[trigger] appended[j]) is Joined ==> i < j,
{
    let records = shutdown_records(trigger, workers, callbacks);
    let w = workers as int;
    let c = callbacks as int;
    assert forall|j: int| 0 <= j < 1 + w + c implies #[trigger] appended[j] == records[j] by {
        assert(appended.subrange(0, 1 + w + c)[j] == appended[j]);
    }
    assert(appended[0] == (UpkeepEvent::Trigger { trigger }));
    assert forall|j: int| 1 <= j < 1 + w implies #[trigger] appended[j]
        == (UpkeepEvent::StopRequested { index: (j - 1) as usize }) by {
        assert(records[j] == stop_events(workers)[j - 1]);
    }
    assert forall|j: int| 1 + w <= j < 1 + w + c implies #[trigger] appended[j]
        == (UpkeepEvent::CallbackRun { index: (j - 1 - w) as usize }) by {
        assert(records[j] == callback_events(callbacks)[j - 1 - w]);
    }
    assert forall|j: int| 1 + w + c <= j < appended.len() implies (#[trigger] appended[j]) is Joined by {
        assert(appended.skip(1 + w + c)[j - 1 - w - c] == appended[j]);
    }
    assert forall|x: int| 0 <= x < workers implies ((#[trigger] appended[1 + w + c + x]) matches
        UpkeepEvent::Joined { index, .. } && index == x) by {
        assert(appended.skip(1 + w + c)[x] == appended[1 + w + c + x]);
    }
}

/// Laws of one `keepalive` journal: when the waiting phase decided
/// `trigger`, the shutdown sequence ran over `workers` workers and
/// `callbacks` callbacks and the final sweep appended `joins`, the journal
/// grows by exactly those entries in that order, and the verdict is clean
/// exactly when the trigger was no panic and no join observed one.
proof fn lemma_keepalive_journal(
    full: Seq<UpkeepEvent>,
    pre: Seq<UpkeepEvent>,
    trigger: ShutdownTrigger,
    workers: nat,
    callbacks: nat,
    joins: Seq<UpkeepEvent>,
    joined_clean: bool,
)
    requires
        full == pre + shutdown_records(trigger, workers, callbacks) + joins,
        join_records(joins, workers),
        joined_clean <==> (forall|j: int|
            0 <= j < joins.len() ==> !is_panic_event(#[trigger] joins[j])),
    ensures
        full.subrange(0, pre.len() as int) == pre,
        keepalive_records(full.skip(pre.len() as int), trigger, workers, callbacks),
        (joined_clean && !(trigger is Panic)) <==> (forall|j: int|
            pre.len() <= j < full.len() ==> !is_panic_event(#[trigger] full[j])),
{
    let p = pre.len() as int;
    let records = shutdown_records(trigger, workers, callbacks);
    let rl = records.len() as int;
    let appended = full.skip(p);
    assert(full.subrange(0, p) =~= pre);
    assert(appended.subrange(0, rl) =~= records);
    assert(appended.skip(rl) =~= joins);
    assert(keepalive_records(appended, trigger, workers, callbacks));
    assert(full[p] == records[0]);
    assert(records[0] == (UpkeepEvent::Trigger { trigger }));
    assert(is_panic_event(full[p]) == trigger is Panic);
    if joined_clean && !(trigger is Panic) {
        assert forall|j: int| p <= j < full.len() implies !is_panic_event(
            #[trigger] full[j],
        ) by {
            if j == p {
                assert(full[j] == (UpkeepEvent::Trigger { trigger }));
            } else if j < p + rl {
                assert(full[j] == records[j - p]);
                if j - p < 1 + workers {
                    assert(records[j - p] == stop_events(workers)[j - p - 1]);
                } else {
                    assert(records[j - p] == callback_events(callbacks)[j - p - 1
                        - workers]);
                }
            } else {
                assert(full[j] == joins[j - p - rl]);
            }
        }
    } else {
        if trigger is Panic {
            assert(is_panic_event(full[p]));
        } else {
            let j0 = choose|j: int| 0 <= j < joins.len() && is_panic_event(#[trigger] joins[j]);
            assert(full[p + rl + j0] == joins[j0]);
            assert(is_panic_event(full[p + rl + j0]));
        }
    }
}

impl View for Upkeep {
    type V = UpkeepView;

    closed spec fn view(&self) -> UpkeepView {
        UpkeepView {
            required: self.threads@.map_values(|t: ThreadMeta| t.required),
            callbacks: callback_count(self.callbacks),
            events: self.events@,
            shutdown_done: self.shutdown_done,
            has_signal_sender: self.signal_sender is Some,
        }
    }
}

/// Blocks the calling thread until shutdown is requested and coordinates
/// the shutdown sequence.
///
/// Shutdown is requested when a termination signal is notified on the
/// signal channel, when a registered worker panics, or when a required
/// worker exits (optional workers may exit cleanly without consequence).
///
/// The shutdown sequence runs exactly once: all still-registered workers
/// are asked to stop, then every callback runs once, in registration
/// order, and finally all workers are joined. A second termination signal
/// is expected to terminate the process at once: installing the OS signal
/// handlers with that behaviour is left to the hosting process, which
/// takes the notification sender with [`Upkeep::take_signal_sender`].
pub struct Upkeep {
    callbacks: CallbackList,
    events: Vec<UpkeepEvent>,
    shutdown_done: bool,
    signal_receiver: Receiver<()>,
    signal_sender: Option<Sender<()>>,
    threads: Vec<ThreadMeta>,
}

impl Upkeep {
    /// A coordinator with no workers, no callbacks, an empty journal and
    /// the signal sender still available.
    pub fn new() -> (r: Upkeep)
        ensures
            r@.required == Seq::<bool>::empty(),
            r@.callbacks == 0,
            r@.events == Seq::<UpkeepEvent>::empty(),
            !r@.shutdown_done,
            r@.has_signal_sender,
    {
        let (signal_sender, signal_receiver) = signal_channel();
        let r = Upkeep {
            callbacks: CallbackList::new(),
            events: Vec::new(),
            shutdown_done: false,
            signal_receiver,
            signal_sender: Some(signal_sender),
            threads: Vec::new(),
        };
        proof {
            assert(r@.required =~= Seq::<bool>::empty());
            assert(r@.events =~= Seq::<UpkeepEvent>::empty());
        }
        r
    }

    /// Register a worker whose exit, clean or not, must shut the process
    /// down.
    pub fn register_thread<T: Send + 'static>(&mut self, thread: Thread<T>)
        requires
            !old(self)@.shutdown_done,
        ensures
            final(self)@.required == old(self)@.required.push(true),
            final(self)@.callbacks == old(self)@.callbacks,
            final(self)@.events == old(self)@.events,
            final(self)@.shutdown_done == old(self)@.shutdown_done,
            final(self)@.has_signal_sender == old(self)@.has_signal_sender,
    {
        let meta = ThreadMeta { handle: discard_result(thread), required: true };
        self.threads.push(meta);
        proof {
            assert(self@.required =~= old(self)@.required.push(true));
        }
    }

    /// Register a worker that is allowed to exit cleanly without shutting
    /// the process down.
    pub fn register_thread_optional<T: Send + 'static>(&mut self, thread: Thread<T>)
        requires
            !old(self)@.shutdown_done,
        ensures
            final(self)@.required == old(self)@.required.push(false),
            final(self)@.callbacks == old(self)@.callbacks,
            final(self)@.events == old(self)@.events,
            final(self)@.shutdown_done == old(self)@.shutdown_done,
            final(self)@.has_signal_sender == old(self)@.has_signal_sender,
    {
        let meta = ThreadMeta { handle: discard_result(thread), required: false };
        self.threads.push(meta);
        proof {
            assert(self@.required =~= old(self)@.required.push(false));
        }
    }

    /// Register a callback to run, once, when the shutdown sequence
    /// begins. Callbacks run in registration order; a callback that panics
    /// propagates the panic and aborts the rest of the shutdown sequence.
    pub fn on_shutdown<F: Fn() + 'static>(&mut self, callback: F)
        ensures
            final(self)@.required == old(self)@.required,
            final(self)@.callbacks == old(self)@.callbacks + 1,
            final(self)@.events == old(self)@.events,
            final(self)@.shutdown_done == old(self)@.shutdown_done,
            final(self)@.has_signal_sender == old(self)@.has_signal_sender,
    {
        self.callbacks.push(callback);
    }

    /// Hand out the signal-notification sender, once.
    ///
    /// The hosting process installs OS signal handlers that send one `()`
    /// on this channel; the coordinator observes it as source 0 of the
    /// waiting multiplex. Only the first call obtains the sender, so a
    /// second installation is a safe no-op.
    pub fn take_signal_sender(&mut self) -> (r: Option<Sender<()>>)
        ensures
            r is Some <==> old(self)@.has_signal_sender,
            !final(self)@.has_signal_sender,
            final(self)@.required == old(self)@.required,
            final(self)@.callbacks == old(self)@.callbacks,
            final(self)@.events == old(self)@.events,
            final(self)@.shutdown_done == old(self)@.shutdown_done,
    {
        self.signal_sender.take()
    }

    /// The journal of shutdown events recorded so far.
    pub fn events(&self) -> (r: &Vec<UpkeepEvent>)
        ensures
            r@ == self@.events,
    {
        &self.events
    }

    /// Run the shutdown sequence for `trigger` unless it already ran:
    /// record the trigger, ask every registered worker to stop (in
    /// registration order), then run every callback (in registration
    /// order).
    fn begin_shutdown(&mut self, trigger: ShutdownTrigger)
        ensures
            old(self)@.shutdown_done ==> final(self)@ == old(self)@,
            !old(self)@.shutdown_done ==> {
                &&& final(self)@.required == old(self)@.required
                &&& final(self)@.callbacks == old(self)@.callbacks
                &&& final(self)@.events == old(self)@.events + shutdown_records(
                    trigger,
                    old(self)@.required.len(),
                    old(self)@.callbacks,
                )
                &&& final(self)@.shutdown_done
                &&& final(self)@.has_signal_sender == old(self)@.has_signal_sender
            },
    {
        if self.shutdown_done {
            return ;
        }
        self.shutdown_done = true;
        self.events.push(UpkeepEvent::Trigger { trigger });
        let ghost mid: Seq<UpkeepEvent> = self@.events;
        let workers = self.threads.len();
        let mut i: usize = 0;
        while i < workers
            invariant
                i <= workers,
                workers == self.threads@.len(),
                self@.events =~= mid + stop_events(i as nat),
                self@.required == old(self)@.required,
                self@.callbacks == old(self)@.callbacks,
                self@.shutdown_done,
                self@.has_signal_sender == old(self)@.has_signal_sender,
            decreases workers - i,
        {
            request_stop(&self.threads[i].handle);
            self.events.push(UpkeepEvent::StopRequested { index: i });
            proof {
                assert(self@.events =~= mid + stop_events((i + 1) as nat));
            }
            i = i + 1;
        }
        let ghost mid2: Seq<UpkeepEvent> = self@.events;
        let callbacks = self.callbacks.len();
        let mut j: usize = 0;
        while j < callbacks
            invariant
                j <= callbacks,
                callbacks == callback_count(self.callbacks),
                self@.events =~= mid2 + callback_events(j as nat),
                self@.required == old(self)@.required,
                self@.callbacks == old(self)@.callbacks,
                self@.shutdown_done,
                self@.has_signal_sender == old(self)@.has_signal_sender,
            decreases callbacks - j,
        {
            self.callbacks.run_at(j);
            self.events.push(UpkeepEvent::CallbackRun { index: j });
            proof {
                assert(self@.events =~= mid2 + callback_events((j + 1) as nat));
            }
            j = j + 1;
        }
        proof {
            assert(self@.events =~= old(self)@.events + shutdown_records(
                trigger,
                old(self)@.required.len(),
                old(self)@.callbacks,
            ));
        }
    }

    /// Join every remaining worker, in order, recording one journal entry
    /// per worker. True when no panic was observed; a benign double join
    /// does not affect the verdict.
    fn join_threads(&mut self) -> (clean: bool)
        ensures
            final(self)@.required.len() == 0,
            final(self)@.callbacks == old(self)@.callbacks,
            final(self)@.shutdown_done == old(self)@.shutdown_done,
            final(self)@.has_signal_sender == old(self)@.has_signal_sender,
            final(self)@.events.len() == old(self)@.events.len() + old(self)@.required.len(),
            final(self)@.events.subrange(0, old(self)@.events.len() as int) == old(self)@.events,
            join_records(
                final(self)@.events.skip(old(self)@.events.len() as int),
                old(self)@.required.len(),
            ),
            clean <==> (forall|j: int|
                old(self)@.events.len() <= j < final(self)@.events.len() ==> !is_panic_event(
                    #[trigger] final(self)@.events[j],
                )),
    {
        let ghost pre = self@;
        let workers = self.threads.len();
        let mut clean = true;
        let mut i: usize = 0;
        proof {
            assert(self@.events.subrange(0, pre.events.len() as int) =~= pre.events);
            assert(self@.events.skip(pre.events.len() as int) =~= Seq::<UpkeepEvent>::empty());
        }
        while i < workers
            invariant
                i <= workers,
                workers == self.threads@.len(),
                self@.required == pre.required,
                self@.callbacks == pre.callbacks,
                self@.shutdown_done == pre.shutdown_done,
                self@.has_signal_sender == pre.has_signal_sender,
                self@.events.len() == pre.events.len() + i,
                self@.events.subrange(0, pre.events.len() as int) == pre.events,
                join_records(self@.events.skip(pre.events.len() as int), i as nat),
                clean <==> (forall|j: int|
                    pre.events.len() <= j < self@.events.len() ==> !is_panic_event(
                        #[trigger] self@.events[j],
                    )),
            decreases workers - i,
        {
            let ghost before = self@.events;
            let ghost was_clean = clean;
            let outcome = join_outcome(&self.threads[i].handle);
            let ghost o = outcome;
            let panicked = match &outcome {
                JoinOutcome::Panicked { .. } => true,
                _ => false,
            };
            if panicked {
                clean = false;
            }
            self.events.push(UpkeepEvent::Joined { index: i, outcome });
            proof {
                let p = pre.events.len() as int;
                let event = (UpkeepEvent::Joined { index: i, outcome: o });
                assert(self@.events == before.push(event));
                assert(is_panic_event(event) == panicked);
                assert(self@.events.subrange(0, p) =~= pre.events);
                assert(self@.events.skip(p) =~= before.skip(p).push(event));
                assert(join_records(self@.events.skip(p), (i + 1) as nat));
                if panicked {
                    assert(is_panic_event(self@.events[before.len() as int]));
                } else if was_clean {
                    assert forall|j: int| p <= j < self@.events.len() implies !is_panic_event(
                        #[trigger] self@.events[j],
                    ) by {
                        if j < before.len() {
                            assert(self@.events[j] == before[j]);
                        } else {
                            assert(self@.events[j] == event);
                        }
                    }
                } else {
                    let j0 = choose|j: int|
                        p <= j < before.len() && is_panic_event(#[trigger] before[j]);
                    assert(self@.events[j0] == before[j0]);
                    assert(is_panic_event(self@.events[j0]));
                }
            }
            i = i + 1;
        }
        self.threads.clear();
        proof {
            assert(self@.required =~= Seq::<bool>::empty());
            assert(clean <==> (forall|j: int|
                pre.events.len() <= j < self@.events.len() ==> !is_panic_event(
                    #[trigger] self@.events[j],
                )));
        }
        clean
    }

    /// Block the calling thread until the process shuts down; true when
    /// the shutdown was clean (no worker panicked).
    ///
    /// While no shutdown has been requested the coordinator waits on the
    /// signal channel and on every worker's completion source; a signal, a
    /// required worker's exit or any panic begins the shutdown sequence,
    /// while optional workers that exit cleanly only leave the registry.
    /// If the shutdown sequence already ran, nothing is waited for: the
    /// remaining workers are joined and the verdict returned, so calling
    /// this again after a clean shutdown returns `true` at once and
    /// records nothing.
    pub fn keepalive(&mut self) -> (clean: bool)
        ensures
            final(self)@.required.len() == 0,
            final(self)@.shutdown_done,
            final(self)@.callbacks == old(self)@.callbacks,
            final(self)@.has_signal_sender == old(self)@.has_signal_sender,
            final(self)@.events.subrange(0, old(self)@.events.len() as int) == old(self)@.events,
            clean <==> (forall|j: int|
                old(self)@.events.len() <= j < final(self)@.events.len() ==> !is_panic_event(
                    #[trigger] final(self)@.events[j],
                )),
            old(self)@.shutdown_done ==> join_records(
                final(self)@.events.skip(old(self)@.events.len() as int),
                old(self)@.required.len(),
            ),
            old(self)@.shutdown_done && old(self)@.required.len() == 0 ==> clean && final(self)@.events
                == old(self)@.events,
            !old(self)@.shutdown_done ==> keepalive_shape(
                final(self)@.events.skip(old(self)@.events.len() as int),
                old(self)@.required.len(),
                old(self)@.callbacks,
            ),
            // The shutdown sequence keepalive runs itself is triggered by a
            // signal or a worker exit, never recorded as a direct request.
            !old(self)@.shutdown_done ==> (final(self)@.events[old(self)@.events.len() as int]
                matches UpkeepEvent::Trigger { trigger } && !(trigger is Requested)),
    {
        let ghost pre = self@;
        if self.shutdown_done {
            let joined_clean = self.join_threads();
            proof {
                if pre.required.len() == 0 {
                    assert(self@.events =~= pre.events);
                }
            }
            return joined_clean;
        }
        let mut trigger_slot: Option<ShutdownTrigger> = None;
        loop
            invariant_except_break
                trigger_slot is None,
            invariant
                !self@.shutdown_done,
                self@.events == pre.events,
                self@.callbacks == pre.callbacks,
                self@.has_signal_sender == pre.has_signal_sender,
                self@.required.len() <= pre.required.len(),
            ensures
                !self@.shutdown_done,
                self@.events == pre.events,
                self@.callbacks == pre.callbacks,
                self@.has_signal_sender == pre.has_signal_sender,
                self@.required.len() <= pre.required.len(),
                trigger_slot matches Some(t) && !(t is Requested),
            decreases self.threads@.len(),
        {
            let index = wait_for_event(&self.signal_receiver, &self.threads);
            if index == 0 {
                trigger_slot = Some(ShutdownTrigger::Signal);
                break ;
            }
            let position = index - 1;
            let outcome = join_outcome(&self.threads[position].handle);
            match decide_wait(self.threads[position].required, outcome) {
                WaitStep::Remove => {
                    self.threads.remove(position);
                },
                WaitStep::Begin { trigger } => {
                    trigger_slot = Some(trigger);
                    break ;
                },
            }
        }
        let ghost wait = self@;
        let trigger = trigger_slot.unwrap();
        let wait_panic = match &trigger {
            ShutdownTrigger::Panic { .. } => true,
            _ => false,
        };
        self.begin_shutdown(trigger);
        let joined_clean = self.join_threads();
        let clean = joined_clean && !wait_panic;
        proof {
            let p = pre.events.len() as int;
            let k = wait.required.len();
            let m = wait.callbacks;
            let records = shutdown_records(trigger, k, m);
            let rl = records.len() as int;
            let joins = self@.events.skip(p + rl);
            assert(self@.events.subrange(0, p + rl) == pre.events + records);
            assert forall|x: int| 0 <= x < self@.events.len() implies self@.events[x] == (
            pre.events + records + joins)[x] by {
                if x < p + rl {
                    assert(self@.events.subrange(0, p + rl)[x] == self@.events[x]);
                    assert((pre.events + records)[x] == (pre.events + records + joins)[x]);
                } else {
                    assert(joins[x - p - rl] == self@.events[x]);
                }
            }
            assert(self@.events =~= pre.events + records + joins);
            let mid = p + rl;
            if joined_clean {
                assert forall|j: int| 0 <= j < joins.len() implies !is_panic_event(
                    #[trigger] joins[j],
                ) by {
                    assert(joins[j] == self@.events[mid + j]);
                }
            } else {
                let j0 = choose|j: int|
                    mid <= j < self@.events.len() && is_panic_event(#[trigger] self@.events[j]);
                assert(joins[j0 - mid] == self@.events[j0]);
                assert(is_panic_event(joins[j0 - mid]));
            }
            lemma_keepalive_journal(
                self@.events,
                pre.events,
                trigger,
                k,
                m,
                joins,
                joined_clean,
            );
            assert(keepalive_records(self@.events.skip(p), trigger, k, m));
        }
        clean
    }

    /// Force shutdown directly, without waiting for a signal or a worker
    /// exit. Idempotent: the shutdown sequence runs only the first time.
    pub fn shutdown(&mut self)
        ensures
            old(self)@.shutdown_done ==> final(self)@ == old(self)@,
            !old(self)@.shutdown_done ==> {
                &&& final(self)@.required == old(self)@.required
                &&& final(self)@.callbacks == old(self)@.callbacks
                &&& final(self)@.events == old(self)@.events + shutdown_records(
                    ShutdownTrigger::Requested,
                    old(self)@.required.len(),
                    old(self)@.callbacks,
                )
                &&& final(self)@.shutdown_done
                &&& final(self)@.has_signal_sender == old(self)@.has_signal_sender
            },
    {
        self.begin_shutdown(ShutdownTrigger::Requested);
    }
}

} // verus!
