use std::sync::{Arc, Mutex};
use veltrix::engine_core::event::EventBus;

#[derive(Debug)]
struct DamageEvent {
    amount: u32,
}

#[test]
fn emit_and_flush_calls_handler() {
    let mut bus = EventBus::new();
    let received = Arc::new(Mutex::new(0u32));
    let r = Arc::clone(&received);

    bus.subscribe(move |ev: &DamageEvent| {
        *r.lock().unwrap() += ev.amount;
    });

    bus.emit(DamageEvent { amount: 10 });
    bus.emit(DamageEvent { amount: 5 });
    assert_eq!(bus.pending_count(), 2);

    bus.flush();
    assert_eq!(bus.pending_count(), 0);
    assert_eq!(*received.lock().unwrap(), 15);
}

#[test]
fn flush_with_no_handlers_does_not_panic() {
    let mut bus = EventBus::new();
    bus.emit(42u32);
    bus.flush();
    assert_eq!(bus.pending_count(), 0);
}
