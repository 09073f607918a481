use std::sync::atomic::AtomicBool;
use std::sync::atomic::AtomicUsize;
use std::sync::atomic::Ordering;
use std::sync::Arc;
use std::sync::Mutex;
use std::time::Duration;

use humthreads::Builder;

use replicante_util::upkeep::decide_wait;
use replicante_util::upkeep::JoinOutcome;
use replicante_util::upkeep::ShutdownTrigger;
use replicante_util::upkeep::Upkeep;
use replicante_util::upkeep::UpkeepEvent;
use replicante_util::upkeep::WaitStep;

/// Sleep without std::thread: wait on a channel that only times out.
fn sleep_millis(millis: u64) {
    let _ = crossbeam_channel::after(Duration::from_millis(millis)).recv();
}

#[test]
fn callback() {
    let flag = Arc::new(AtomicBool::new(false));
    let mut up = Upkeep::new();
    let inner_flag = Arc::clone(&flag);
    up.on_shutdown(move || inner_flag.store(true, Ordering::Relaxed));
    up.shutdown();
    assert_eq!(true, flag.load(Ordering::Relaxed));
}

#[test]
fn thread_optional() {
    let count = Arc::new(AtomicUsize::new(0));
    let inner_count = Arc::clone(&count);
    let mut up = Upkeep::new();
    let optional = Builder::new("thread_optional_two")
        .spawn(|_| sleep_millis(10))
        .expect("to spawn test thread");
    up.register_thread_optional(optional);
    let thread = Builder::new("thread_optional_one")
        .spawn(move |scope| {
            for _ in 0..5 {
                sleep_millis(10);
                if scope.should_shutdown() {
                    break;
                }
                inner_count.fetch_add(1, Ordering::Relaxed);
            }
        })
        .expect("to spawn test thread");
    up.register_thread(thread);
    let clean = up.keepalive();
    assert_eq!(true, clean);
    assert_eq!(5, count.load(Ordering::Relaxed));
}

#[test]
fn thread_panics() {
    let flag = Arc::new(AtomicBool::new(false));
    let inner_flag = Arc::clone(&flag);
    let mut up = Upkeep::new();
    let thread = Builder::new("thread_panics")
        .spawn(move |_| {
            inner_flag.store(true, Ordering::Relaxed);
            panic!("this panic is expected");
        })
        .expect("to spawn test thread");
    up.register_thread(thread);
    let clean = up.keepalive();
    assert_eq!(true, flag.load(Ordering::Relaxed));
    assert_eq!(false, clean);
}

#[test]
fn thread_shuts_down() {
    let flag = Arc::new(AtomicBool::new(false));
    let inner_flag = Arc::clone(&flag);
    let thread = Builder::new("thread_shuts_down")
        .spawn(move |scope| {
            loop {
                sleep_millis(10);
                if scope.should_shutdown() {
                    break;
                }
            }
            inner_flag.store(true, Ordering::Relaxed);
        })
        .expect("to spawn test thread");
    let mut up = Upkeep::new();
    up.register_thread(thread);
    up.shutdown();
    let clean = up.keepalive();
    assert_eq!(true, flag.load(Ordering::Relaxed));
    assert_eq!(true, clean);
}

#[test]
fn shutdown_then_keepalive_without_workers() {
    let mut up = Upkeep::new();
    up.shutdown();
    assert_eq!(true, up.keepalive());
}

#[test]
fn keepalive_twice_after_clean_shutdown() {
    let mut up = Upkeep::new();
    up.shutdown();
    assert_eq!(true, up.keepalive());
    let recorded = up.events().len();
    assert_eq!(true, up.keepalive());
    assert_eq!(recorded, up.events().len());
}

#[test]
fn required_exit_stops_optional_worker() {
    let stopped = Arc::new(AtomicBool::new(false));
    let inner_stopped = Arc::clone(&stopped);
    let mut up = Upkeep::new();
    let required = Builder::new("required_exit_stops_optional_a")
        .spawn(|_| sleep_millis(50))
        .expect("to spawn test thread");
    up.register_thread(required);
    let optional = Builder::new("required_exit_stops_optional_b")
        .spawn(move |scope| {
            loop {
                sleep_millis(5);
                if scope.should_shutdown() {
                    inner_stopped.store(true, Ordering::Relaxed);
                    break;
                }
            }
        })
        .expect("to spawn test thread");
    up.register_thread_optional(optional);
    let clean = up.keepalive();
    assert_eq!(true, clean);
    assert_eq!(true, stopped.load(Ordering::Relaxed));
}

#[test]
fn panic_message_is_recorded_once() {
    let mut up = Upkeep::new();
    let thread = Builder::new("panic_message_is_recorded_once")
        .spawn(|_| panic!("this panic is expected"))
        .expect("to spawn test thread");
    up.register_thread(thread);
    let clean = up.keepalive();
    assert_eq!(false, clean);
    let mut messages: Vec<String> = Vec::new();
    for event in up.events().iter() {
        if let UpkeepEvent::Trigger { trigger: ShutdownTrigger::Panic { message } } = event {
            messages.push(message.clone());
        }
        if let UpkeepEvent::Joined { outcome: JoinOutcome::Panicked { message }, .. } = event {
            messages.push(message.clone());
        }
    }
    assert_eq!(messages, vec![String::from("this panic is expected")]);
}

#[test]
fn callbacks_run_in_registration_order() {
    let log = Arc::new(Mutex::new(Vec::<String>::new()));
    let mut up = Upkeep::new();
    let first = Arc::clone(&log);
    up.on_shutdown(move || first.lock().unwrap().push(String::from("c1")));
    let second = Arc::clone(&log);
    up.on_shutdown(move || second.lock().unwrap().push(String::from("c2")));
    up.shutdown();
    let order = log.lock().unwrap().clone();
    assert_eq!(order, vec![String::from("c1"), String::from("c2")]);
}

#[test]
fn journal_orders_stops_callbacks_joins() {
    let mut up = Upkeep::new();
    let worker_a = Builder::new("journal_order_a")
        .spawn(|scope| {
            while !scope.should_shutdown() {
                sleep_millis(5);
            }
        })
        .expect("to spawn test thread");
    up.register_thread(worker_a);
    let worker_b = Builder::new("journal_order_b")
        .spawn(|scope| {
            while !scope.should_shutdown() {
                sleep_millis(5);
            }
        })
        .expect("to spawn test thread");
    up.register_thread_optional(worker_b);
    up.on_shutdown(|| ());
    up.shutdown();
    let clean = up.keepalive();
    assert_eq!(true, clean);
    let events = up.events();
    assert_eq!(events.len(), 6);
    assert!(matches!(events[0], UpkeepEvent::Trigger { trigger: ShutdownTrigger::Requested }));
    assert!(matches!(events[1], UpkeepEvent::StopRequested { index: 0 }));
    assert!(matches!(events[2], UpkeepEvent::StopRequested { index: 1 }));
    assert!(matches!(events[3], UpkeepEvent::CallbackRun { index: 0 }));
    assert!(matches!(events[4], UpkeepEvent::Joined { index: 0, outcome: JoinOutcome::Clean }));
    assert!(matches!(events[5], UpkeepEvent::Joined { index: 1, outcome: JoinOutcome::Clean }));
}

#[test]
fn wait_decision_table() {
    assert!(matches!(decide_wait(false, JoinOutcome::Clean), WaitStep::Remove));
    assert!(matches!(
        decide_wait(true, JoinOutcome::Clean),
        WaitStep::Begin { trigger: ShutdownTrigger::RequiredExit }
    ));
    assert!(matches!(decide_wait(true, JoinOutcome::AlreadyJoined), WaitStep::Remove));
    assert!(matches!(decide_wait(false, JoinOutcome::AlreadyJoined), WaitStep::Remove));
    let panic = JoinOutcome::Panicked { message: String::from("boom") };
    match decide_wait(false, panic) {
        WaitStep::Begin { trigger: ShutdownTrigger::Panic { message } } => {
            assert_eq!(message, "boom");
        }
        other => panic!("optional worker panic must begin shutdown, got {:?}", other),
    }
}

#[test]
fn optional_clean_exit_does_not_shut_down() {
    let count = Arc::new(AtomicUsize::new(0));
    let inner_count = Arc::clone(&count);
    let mut up = Upkeep::new();
    let optional = Builder::new("optional_clean_exit_short")
        .spawn(|_| ())
        .expect("to spawn test thread");
    up.register_thread_optional(optional);
    let required = Builder::new("optional_clean_exit_long")
        .spawn(move |scope| {
            for _ in 0..4 {
                sleep_millis(10);
                if scope.should_shutdown() {
                    return;
                }
                inner_count.fetch_add(1, Ordering::Relaxed);
            }
        })
        .expect("to spawn test thread");
    up.register_thread(required);
    let clean = up.keepalive();
    // The optional worker exiting at once did not stop the required one.
    assert_eq!(true, clean);
    assert_eq!(4, count.load(Ordering::Relaxed));
}
