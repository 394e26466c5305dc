use std::cell::RefCell;
use std::rc::Rc;
use std::sync::atomic::AtomicUsize;
use std::sync::atomic::Ordering;
use std::sync::Arc;

use eventd::Event;
use eventd::EventMut;
use eventd::Handler;
use eventd::HandlerMut;
use eventd::Quiet;
use eventd::Record;
use eventd::SharedEvent;
use eventd::Subscription;
use eventd::SubscriptionMissing;

/// Without a buffer it checks the received pair, with one it stores the
/// numeric half.
struct TestHandler {
    called: Rc<RefCell<bool>>,
    buffer: Option<Rc<RefCell<Vec<u8>>>>,
}

impl HandlerMut<(u8, &'static str)> for TestHandler {
    fn on_event(&mut self, arg: (u8, &'static str)) {
        match &self.buffer {
            None => {
                *self.called.borrow_mut() = true;
                assert_eq!(arg.0, 42);
                assert_eq!(arg.1, "foo");
            }
            Some(buf) => {
                *self.called.borrow_mut() = true;
                buf.borrow_mut().push(arg.0);
            }
        }
    }
}

#[test]
fn test_event() {
    let called1 = Rc::new(RefCell::new(false));
    let called2 = Rc::new(RefCell::new(false));
    let some_buffer = Rc::new(RefCell::new(Vec::new()));
    {
        let mut my_event = EventMut::default();
        my_event.subscribe(TestHandler {
            called: called1.clone(),
            buffer: None,
        });
        my_event.subscribe(TestHandler {
            called: called2.clone(),
            buffer: Some(some_buffer.clone()),
        });

        my_event.emit((42, "foo"));
    }

    assert!(*called1.borrow());
    assert!(*called2.borrow());
    assert_eq!(*some_buffer.borrow(), vec![42]);
}

/// Counts its calls.
struct Counting {
    count: Rc<RefCell<u8>>,
}

impl HandlerMut<()> for Counting {
    fn on_event(&mut self, _arg: ()) {
        *self.count.borrow_mut() += 1;
    }
}

#[test]
fn test_unsubscribe() {
    let called = Rc::new(RefCell::new(0u8));
    {
        let mut my_event = EventMut::default();
        let subscription = my_event.subscribe(Counting {
            count: called.clone(),
        });
        my_event.emit(());
        my_event.emit(());
        my_event.unsubscribe(subscription).unwrap();
        my_event.emit(());
        my_event.emit(());
    }
    assert_eq!(*called.borrow(), 2);
}

/// Appends the received value to a shared log, tagged with its own id.
struct Logging {
    id: u8,
    log: Rc<RefCell<Vec<(u8, u64)>>>,
}

impl HandlerMut<u64> for Logging {
    fn on_event(&mut self, arg: u64) {
        self.log.borrow_mut().push((self.id, arg));
    }
}

#[test]
fn two_handlers_each_observe_emitted_value() {
    let log = Rc::new(RefCell::new(Vec::new()));
    let mut d = EventMut::default();
    d.subscribe(Logging { id: 1, log: log.clone() });
    d.subscribe(Logging { id: 2, log: log.clone() });
    d.emit(42u64);
    assert_eq!(*log.borrow(), vec![(1, 42), (2, 42)]);
}

#[test]
fn handlers_run_in_subscription_order_every_time() {
    let log = Rc::new(RefCell::new(Vec::new()));
    let mut d = EventMut::default();
    d.subscribe(Logging { id: 1, log: log.clone() });
    d.subscribe(Logging { id: 2, log: log.clone() });
    d.subscribe(Logging { id: 3, log: log.clone() });
    d.emit(5u64);
    d.emit(5u64);
    assert_eq!(
        *log.borrow(),
        vec![(1, 5), (2, 5), (3, 5), (1, 5), (2, 5), (3, 5)]
    );
}

/// Either mutates its received vector, or records it; a recording sibling
/// must still see the value as it was emitted.
enum IsolationHandler {
    Mutating,
    Expecting(Rc<RefCell<Vec<Vec<u64>>>>),
}

impl HandlerMut<Vec<u64>> for IsolationHandler {
    fn on_event(&mut self, mut arg: Vec<u64>) {
        match self {
            IsolationHandler::Mutating => {
                arg.push(99);
            }
            IsolationHandler::Expecting(seen) => {
                seen.borrow_mut().push(arg);
            }
        }
    }
}

#[test]
fn handler_mutating_its_argument_does_not_affect_siblings() {
    let seen = Rc::new(RefCell::new(Vec::new()));
    let mut d = EventMut::default();
    d.subscribe(IsolationHandler::Mutating);
    d.subscribe(IsolationHandler::Expecting(seen.clone()));
    d.emit(vec![7u64]);
    assert_eq!(*seen.borrow(), vec![vec![7u64]]);
}

#[test]
fn double_unsubscribe_reports_missing() {
    let mut d = EventMut::default();
    let s = d.subscribe(Counting {
        count: Rc::new(RefCell::new(0)),
    });
    let key = s.key;
    assert!(d.unsubscribe(s).is_ok());
    let again = Subscription { key };
    let r = d.unsubscribe(again);
    assert!(matches!(r, Err(SubscriptionMissing)));
}

#[test]
fn manufactured_token_reports_missing() {
    let mut d = EventMut::default();
    d.subscribe(Counting {
        count: Rc::new(RefCell::new(0)),
    });
    let bogus = Subscription { key: 999 };
    let r = d.unsubscribe(bogus);
    assert!(r.is_err());
    assert_eq!(
        r.unwrap_err().message(),
        "Attempt to unsubscribe delegate without subscription"
    );
}

#[test]
fn foreign_token_is_tolerated() {
    let mut d1 = EventMut::default();
    let mut d2 = EventMut::default();
    let s1 = d1.subscribe(Counting {
        count: Rc::new(RefCell::new(0)),
    });
    // a token from an unrelated dispatcher may hit or miss by coincidence;
    // the call must merely return rather than crash
    let _ = d2.unsubscribe(s1);
    let count = Rc::new(RefCell::new(0u8));
    let s2 = d2.subscribe(Counting {
        count: count.clone(),
    });
    d2.emit(());
    assert_eq!(*count.borrow(), 1);
    let _ = d2.unsubscribe(s2);
}

#[test]
fn freed_slot_is_reissued_and_only_new_handler_runs() {
    let log = Rc::new(RefCell::new(Vec::new()));
    let mut d = EventMut::default();
    let s1 = d.subscribe(Logging { id: 1, log: log.clone() });
    let old_key = s1.key;
    assert_eq!(old_key, 0);
    d.unsubscribe(s1).unwrap();
    let s2 = d.subscribe(Logging { id: 2, log: log.clone() });
    assert_eq!(s2.key, old_key);
    d.emit(7u64);
    assert_eq!(*log.borrow(), vec![(2, 7)]);
}

#[test]
fn fresh_tokens_ascend_without_removals() {
    let mut d = EventMut::default();
    let log = Rc::new(RefCell::new(Vec::new()));
    let s1 = d.subscribe(Logging { id: 1, log: log.clone() });
    let s2 = d.subscribe(Logging { id: 2, log: log.clone() });
    let s3 = d.subscribe(Logging { id: 3, log: log.clone() });
    assert_eq!(s1.key, 0);
    assert_eq!(s2.key, 1);
    assert_eq!(s3.key, 2);
}

#[test]
fn interleaved_removals_reuse_last_freed_slot_first() {
    let log = Rc::new(RefCell::new(Vec::new()));
    let mut d = EventMut::default();
    let s1 = d.subscribe(Logging { id: 1, log: log.clone() });
    let s2 = d.subscribe(Logging { id: 2, log: log.clone() });
    let _s3 = d.subscribe(Logging { id: 3, log: log.clone() });
    d.unsubscribe(s2).unwrap();
    d.unsubscribe(s1).unwrap();
    let s4 = d.subscribe(Logging { id: 4, log: log.clone() });
    let s5 = d.subscribe(Logging { id: 5, log: log.clone() });
    assert_eq!(s4.key, 0);
    assert_eq!(s5.key, 1);
    d.emit(9u64);
    assert_eq!(*log.borrow(), vec![(4, 9), (5, 9), (3, 9)]);
}

#[test]
fn emit_on_empty_dispatcher_invokes_nothing() {
    let log = Rc::new(RefCell::new(Vec::new()));
    let mut d = EventMut::<Logging>::default();
    d.emit(1u64);
    let s = d.subscribe(Logging { id: 1, log: log.clone() });
    d.unsubscribe(s).unwrap();
    d.emit(2u64);
    assert!(log.borrow().is_empty());
}

#[test]
fn record_handler_keeps_observed_values() {
    let mut r = Record::new();
    r.on_event(5u64);
    r.on_event(8u64);
    assert_eq!(r.seen().as_slice(), &[5, 8]);
}

/// A read-only handler counting through a cell, for the shared-access
/// dispatcher.
struct ReadCounting {
    count: Rc<RefCell<u32>>,
}

impl Handler<u32> for ReadCounting {
    fn on_event(&self, arg: u32) {
        *self.count.borrow_mut() += arg;
    }
}

#[test]
fn read_only_dispatch_needs_only_shared_access() {
    let count = Rc::new(RefCell::new(0u32));
    let mut d = Event::default();
    d.subscribe(ReadCounting {
        count: count.clone(),
    });
    d.subscribe(ReadCounting {
        count: count.clone(),
    });
    let d_shared = &d;
    d_shared.emit(10u32);
    d_shared.emit(10u32);
    assert_eq!(*count.borrow(), 40);
}

/// A thread-safe counting handler for the shared dispatcher.
struct AtomicCounting {
    count: Arc<AtomicUsize>,
}

impl Handler<u32> for AtomicCounting {
    fn on_event(&self, _arg: u32) {
        self.count.fetch_add(1, Ordering::SeqCst);
    }
}

#[test]
fn shared_dispatcher_accepts_thread_safe_handlers() {
    let count = Arc::new(AtomicUsize::new(0));
    let mut d = SharedEvent::default();
    d.subscribe(AtomicCounting {
        count: count.clone(),
    });
    let s = d.subscribe(AtomicCounting {
        count: count.clone(),
    });
    d.emit(3u32);
    d.unsubscribe(s).unwrap();
    d.emit(3u32);
    assert_eq!(count.load(Ordering::SeqCst), 3);
}

#[test]
fn quiet_handler_is_callable_everywhere() {
    let mut d = SharedEvent::default();
    d.subscribe(Quiet);
    d.emit(1u8);
    let mut e = Event::default();
    e.subscribe(Quiet);
    e.emit("hello");
}
