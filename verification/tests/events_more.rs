use std::sync::{Arc, Mutex};
use veltrix::engine_core::event::EventBus;

struct Ping(u32);
struct Pong(u32);

#[test]
fn flush_dispatches_in_order_by_type() {
    let mut bus = EventBus::new();
    let log = Arc::new(Mutex::new(Vec::<String>::new()));
    let (l1, l2, l3) = (log.clone(), log.clone(), log.clone());
    bus.subscribe(move |p: &Ping| l1.lock().unwrap().push(format!("a{}", p.0)));
    bus.subscribe(move |p: &Pong| l2.lock().unwrap().push(format!("pong{}", p.0)));
    bus.subscribe(move |p: &Ping| l3.lock().unwrap().push(format!("b{}", p.0)));
    bus.emit(Ping(1));
    bus.emit(Pong(2));
    bus.emit(Ping(3));
    bus.flush();
    assert_eq!(
        *log.lock().unwrap(),
        vec!["a1", "b1", "pong2", "a3", "b3"]
    );
    bus.flush();
    assert_eq!(log.lock().unwrap().len(), 5);
}
