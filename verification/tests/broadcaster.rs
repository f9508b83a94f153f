use planet_relay::broadcaster::{Broadcaster, ClientId, Delivery};
use std::cell::RefCell;
use std::rc::Rc;

struct Inbox {
    open: bool,
    received: RefCell<Vec<String>>,
}

fn inbox(open: bool) -> Rc<Inbox> {
    Rc::new(Inbox { open, received: RefCell::new(Vec::new()) })
}

fn hand_over(sink: &Rc<Inbox>, chunk: &str) -> bool {
    if sink.open {
        sink.received.borrow_mut().push(chunk.to_string());
    }
    sink.open
}

fn received(sink: &Rc<Inbox>) -> Vec<String> {
    sink.received.borrow().clone()
}

#[test]
fn new_registry_is_empty() {
    let registry: Broadcaster<Rc<Inbox>> = Broadcaster::new();
    assert_eq!(registry.len(), 0);
    assert_eq!(registry.issued_so_far(), 0);
    assert!(!registry.contains(ClientId { value: 0 }));
}

#[test]
fn register_hands_out_rising_identifiers() {
    let mut registry = Broadcaster::new();
    let a = registry.register(inbox(true));
    let b = registry.register(inbox(true));
    let c = registry.register(inbox(true));
    assert_eq!(a, ClientId { value: 0 });
    assert_eq!(b, ClientId { value: 1 });
    assert_eq!(c, ClientId { value: 2 });
    assert_eq!(registry.len(), 3);
    assert_eq!(registry.issued_so_far(), 3);
    assert!(registry.contains(a) && registry.contains(b) && registry.contains(c));
}

#[test]
fn identifiers_are_not_reused_after_removal() {
    let mut registry = Broadcaster::new();
    let a = registry.register(inbox(true));
    registry.deregister(a);
    let b = registry.register(inbox(true));
    assert_eq!(b, ClientId { value: 1 });
    assert!(!registry.contains(a));
    assert!(registry.contains(b));
}

#[test]
fn deregister_removes_only_the_named_client() {
    let mut registry = Broadcaster::new();
    let a = registry.register(inbox(true));
    let b = registry.register(inbox(true));
    let c = registry.register(inbox(true));
    registry.deregister(b);
    assert_eq!(registry.len(), 2);
    assert!(registry.contains(a));
    assert!(!registry.contains(b));
    assert!(registry.contains(c));
    assert_eq!(registry.issued_so_far(), 3);
}

#[test]
fn deregister_twice_is_the_same_as_once() {
    let mut once = Broadcaster::new();
    let mut twice = Broadcaster::new();
    let sinks = [inbox(true), inbox(true), inbox(true)];
    let mut ids = Vec::new();
    for sink in sinks.iter() {
        ids.push(once.register(sink.clone()));
        twice.register(sink.clone());
    }
    once.deregister(ids[1]);
    twice.deregister(ids[1]);
    twice.deregister(ids[1]);
    assert_eq!(once.len(), twice.len());
    for id in ids.iter() {
        assert_eq!(once.contains(*id), twice.contains(*id));
    }
    let report_once = once.broadcast("n", hand_over);
    let first_pass: Vec<Vec<String>> = sinks.iter().map(received).collect();
    let report_twice = twice.broadcast("n", hand_over);
    assert_eq!(report_once, report_twice);
    assert_eq!(first_pass, vec![vec!["n".to_string()], vec![], vec!["n".to_string()]]);
}

#[test]
fn deregister_of_an_unknown_identifier_changes_nothing() {
    let mut registry = Broadcaster::new();
    let a = registry.register(inbox(true));
    registry.deregister(ClientId { value: 41 });
    assert_eq!(registry.len(), 1);
    assert!(registry.contains(a));
    let mut empty: Broadcaster<Rc<Inbox>> = Broadcaster::new();
    empty.deregister(a);
    assert_eq!(empty.len(), 0);
}

#[test]
fn broadcast_to_nobody_reports_nothing() {
    let mut registry: Broadcaster<Rc<Inbox>> = Broadcaster::new();
    let report = registry.broadcast("news", hand_over);
    assert_eq!(report, Vec::<Delivery>::new());
    assert_eq!(registry.len(), 0);
}

#[test]
fn broadcast_reaches_every_registered_sink_once_oldest_first() {
    let mut registry = Broadcaster::new();
    let first = inbox(true);
    let second = inbox(true);
    let a = registry.register(first.clone());
    let b = registry.register(second.clone());
    let report = registry.broadcast("news", hand_over);
    assert_eq!(
        report,
        vec![Delivery { client: a, delivered: true }, Delivery { client: b, delivered: true }]
    );
    assert_eq!(received(&first), vec!["news".to_string()]);
    assert_eq!(received(&second), vec!["news".to_string()]);
    assert_eq!(registry.len(), 2);
}

#[test]
fn broadcast_sees_the_registry_as_it_is_when_it_begins() {
    let mut registry = Broadcaster::new();
    let early = inbox(true);
    let gone = inbox(true);
    let late = inbox(true);
    let a = registry.register(early.clone());
    let b = registry.register(gone.clone());
    registry.broadcast("one", hand_over);
    registry.deregister(b);
    let report = registry.broadcast("two", hand_over);
    assert_eq!(report, vec![Delivery { client: a, delivered: true }]);
    let c = registry.register(late.clone());
    let report = registry.broadcast("three", hand_over);
    assert_eq!(
        report,
        vec![Delivery { client: a, delivered: true }, Delivery { client: c, delivered: true }]
    );
    assert_eq!(received(&early), vec!["one".to_string(), "two".to_string(), "three".to_string()]);
    assert_eq!(received(&gone), vec!["one".to_string()]);
    assert_eq!(received(&late), vec!["three".to_string()]);
}

#[test]
fn a_failing_sink_does_not_stop_the_others() {
    let mut registry = Broadcaster::new();
    let first = inbox(true);
    let broken = inbox(false);
    let last = inbox(true);
    let a = registry.register(first.clone());
    let b = registry.register(broken.clone());
    let c = registry.register(last.clone());
    let report = registry.broadcast("news", hand_over);
    assert_eq!(
        report,
        vec![
            Delivery { client: a, delivered: true },
            Delivery { client: b, delivered: false },
            Delivery { client: c, delivered: true },
        ]
    );
    assert_eq!(received(&first), vec!["news".to_string()]);
    assert_eq!(received(&broken), Vec::<String>::new());
    assert_eq!(received(&last), vec!["news".to_string()]);
}

#[test]
fn a_failing_sink_leaves_the_live_set() {
    let mut registry = Broadcaster::new();
    let a = registry.register(inbox(true));
    let b = registry.register(inbox(false));
    let c = registry.register(inbox(false));
    let d = registry.register(inbox(true));
    registry.broadcast("news", hand_over);
    assert_eq!(registry.len(), 2);
    assert!(registry.contains(a));
    assert!(!registry.contains(b));
    assert!(!registry.contains(c));
    assert!(registry.contains(d));
    let report = registry.broadcast("more", hand_over);
    assert_eq!(
        report,
        vec![Delivery { client: a, delivered: true }, Delivery { client: d, delivered: true }]
    );
}

#[test]
fn every_sink_failing_empties_the_registry() {
    let mut registry = Broadcaster::new();
    registry.register(inbox(false));
    registry.register(inbox(false));
    let report = registry.broadcast("news", hand_over);
    assert_eq!(report.len(), 2);
    assert!(report.iter().all(|delivery| !delivery.delivered));
    assert_eq!(registry.len(), 0);
    assert_eq!(registry.issued_so_far(), 2);
}

#[test]
fn notifications_arrive_in_the_order_of_their_broadcast() {
    let mut registry = Broadcaster::new();
    let first = inbox(true);
    let second = inbox(true);
    registry.register(first.clone());
    registry.register(second.clone());
    registry.broadcast("N1", hand_over);
    registry.broadcast("N2", hand_over);
    assert_eq!(received(&first), vec!["N1".to_string(), "N2".to_string()]);
    assert_eq!(received(&second), vec!["N1".to_string(), "N2".to_string()]);
}

#[test]
fn a_sink_registered_late_misses_what_came_before() {
    let mut registry = Broadcaster::new();
    let early = inbox(true);
    let late = inbox(true);
    registry.register(early.clone());
    registry.broadcast("N1", hand_over);
    registry.register(late.clone());
    registry.broadcast("N2", hand_over);
    assert_eq!(received(&early), vec!["N1".to_string(), "N2".to_string()]);
    assert_eq!(received(&late), vec!["N2".to_string()]);
}
