use tokio::sync::mpsc::{unbounded_channel, UnboundedReceiver, UnboundedSender};
use ws_relay::frame::Frame;
use ws_relay::ident::ClientId;
use ws_relay::registry::{ControllerDelivery, Delivery, Registry};

fn channel() -> (UnboundedSender<Frame>, UnboundedReceiver<Frame>) {
    unbounded_channel()
}

fn text(content: &str) -> Frame {
    Frame::Text(content.to_string())
}

fn client(value: u128) -> ClientId {
    ClientId::from_u128(value)
}

#[test]
fn new_registry_is_empty() {
    let registry = Registry::new();
    assert_eq!(registry.len(), 0);
    assert!(!registry.contains(ClientId::controller()));
    assert!(registry.lookup(ClientId::controller()).is_none());
    assert!(registry.lookup(client(2)).is_none());
}

#[test]
fn lookup_after_register_finds_the_channel() {
    let mut registry = Registry::new();
    let (tx_a, mut rx_a) = channel();
    let (tx_b, mut rx_b) = channel();
    registry.register(client(2), tx_a);
    registry.register(client(3), tx_b);
    assert_eq!(registry.len(), 2);
    assert!(registry.contains(client(2)));
    let found = registry.lookup(client(2)).expect("client 2 is registered");
    found.send(text("for a")).unwrap();
    assert_eq!(rx_a.try_recv().ok(), Some(text("for a")));
    assert!(rx_b.try_recv().is_err());
    let other = registry.lookup(client(3)).expect("client 3 is registered");
    other.send(text("for b")).unwrap();
    assert_eq!(rx_b.try_recv().ok(), Some(text("for b")));
    assert!(rx_a.try_recv().is_err());
}

#[test]
fn lookup_after_deregister_finds_nothing() {
    let mut registry = Registry::new();
    let (tx_a, _rx_a) = channel();
    let (tx_b, _rx_b) = channel();
    registry.register(client(2), tx_a);
    registry.register(client(3), tx_b);
    registry.deregister(client(2));
    assert!(registry.lookup(client(2)).is_none());
    assert!(!registry.contains(client(2)));
    assert!(registry.lookup(client(3)).is_some());
    assert_eq!(registry.len(), 1);
}

#[test]
fn deregister_of_an_unknown_identifier_changes_nothing() {
    let mut registry = Registry::new();
    let (tx_a, _rx_a) = channel();
    registry.deregister(client(9));
    assert_eq!(registry.len(), 0);
    registry.register(client(2), tx_a);
    registry.deregister(client(9));
    assert_eq!(registry.len(), 1);
    assert!(registry.contains(client(2)));
}

#[test]
fn second_controller_evicts_the_first() {
    let mut registry = Registry::new();
    let (tx_a, mut rx_a) = channel();
    let (tx_c, mut rx_c) = channel();
    registry.register(ClientId::controller(), tx_a);
    assert_eq!(registry.len(), 1);
    registry.register(ClientId::controller(), tx_c);
    assert_eq!(registry.len(), 1);
    assert_eq!(
        registry.send_to_controller(text("request")),
        ControllerDelivery::Delivered
    );
    assert_eq!(rx_c.try_recv().ok(), Some(text("request")));
    assert!(rx_a.try_recv().is_err());
}

#[test]
fn reregistration_of_a_client_replaces_its_entry() {
    let mut registry = Registry::new();
    let (tx_old, mut rx_old) = channel();
    let (tx_new, mut rx_new) = channel();
    let (tx_other, _rx_other) = channel();
    registry.register(client(2), tx_old);
    registry.register(client(3), tx_other);
    registry.register(client(2), tx_new);
    assert_eq!(registry.len(), 2);
    registry.lookup(client(2)).unwrap().send(text("hello")).unwrap();
    assert_eq!(rx_new.try_recv().ok(), Some(text("hello")));
    assert!(rx_old.try_recv().is_err());
    let report = registry.broadcast_except(ClientId::controller(), &text("x"));
    assert_eq!(
        report,
        vec![
            Delivery { id: client(3), delivered: true },
            Delivery { id: client(2), delivered: true }
        ]
    );
}

#[test]
fn at_most_one_entry_per_identifier_after_many_calls() {
    let mut registry = Registry::new();
    let mut receivers = Vec::new();
    for round in 0..50u128 {
        let (tx, rx) = channel();
        receivers.push(rx);
        let id = if round % 3 == 0 { ClientId::controller() } else { client(round % 5) };
        registry.register(id, tx);
        if round % 7 == 0 {
            registry.deregister(client(round % 5));
        }
        let everyone = registry.broadcast_except(client(u128::MAX), &text("ping"));
        assert_eq!(everyone.len(), registry.len());
        let controllers = everyone.iter().filter(|d| d.id.is_controller()).count();
        assert!(controllers <= 1);
        for (i, a) in everyone.iter().enumerate() {
            for b in everyone.iter().skip(i + 1) {
                assert_ne!(a.id, b.id);
            }
        }
    }
}

#[test]
fn broadcast_reaches_every_client_but_the_excepted() {
    let mut registry = Registry::new();
    let (tx_a, mut rx_a) = channel();
    let (tx_b, mut rx_b) = channel();
    let (tx_c, mut rx_c) = channel();
    registry.register(client(2), tx_b);
    registry.register(ClientId::controller(), tx_a);
    registry.register(client(3), tx_c);
    let frame = text("{\"action\":5}");
    let report = registry.broadcast_except(ClientId::controller(), &frame);
    assert_eq!(
        report,
        vec![
            Delivery { id: client(2), delivered: true },
            Delivery { id: client(3), delivered: true }
        ]
    );
    assert_eq!(rx_b.try_recv().ok(), Some(frame.clone()));
    assert_eq!(rx_c.try_recv().ok(), Some(frame.clone()));
    assert!(rx_a.try_recv().is_err());
    assert!(rx_b.try_recv().is_err());
    assert!(rx_c.try_recv().is_err());
}

#[test]
fn broadcast_does_not_depend_on_registration_order() {
    let mut registry = Registry::new();
    let (tx_a, mut rx_a) = channel();
    let (tx_b, mut rx_b) = channel();
    let (tx_c, mut rx_c) = channel();
    registry.register(ClientId::controller(), tx_a);
    registry.register(client(3), tx_c);
    registry.register(client(2), tx_b);
    let frame = Frame::Binary(vec![1, 2, 3]);
    let report = registry.broadcast_except(ClientId::controller(), &frame);
    assert_eq!(report.len(), 2);
    assert!(report.contains(&Delivery { id: client(2), delivered: true }));
    assert!(report.contains(&Delivery { id: client(3), delivered: true }));
    assert_eq!(rx_b.try_recv().ok(), Some(frame.clone()));
    assert_eq!(rx_c.try_recv().ok(), Some(frame.clone()));
    assert!(rx_a.try_recv().is_err());
}

#[test]
fn broadcast_on_an_empty_registry_reaches_nobody() {
    let registry = Registry::new();
    assert_eq!(registry.broadcast_except(ClientId::controller(), &text("x")), vec![]);
}

#[test]
fn broadcast_reports_a_closed_channel_and_goes_on() {
    let mut registry = Registry::new();
    let (tx_gone, rx_gone) = channel();
    let (tx_b, mut rx_b) = channel();
    registry.register(client(2), tx_gone);
    registry.register(client(3), tx_b);
    drop(rx_gone);
    let report = registry.broadcast_except(ClientId::controller(), &text("x"));
    assert_eq!(
        report,
        vec![
            Delivery { id: client(2), delivered: false },
            Delivery { id: client(3), delivered: true }
        ]
    );
    assert_eq!(rx_b.try_recv().ok(), Some(text("x")));
    assert_eq!(registry.len(), 2);
}

#[test]
fn channel_keeps_frames_in_order() {
    let mut registry = Registry::new();
    let (tx_b, mut rx_b) = channel();
    registry.register(client(2), tx_b);
    for n in 0..10 {
        registry.broadcast_except(ClientId::controller(), &text(&format!("{}", n)));
    }
    for n in 0..10 {
        assert_eq!(rx_b.try_recv().ok(), Some(text(&format!("{}", n))));
    }
    assert!(rx_b.try_recv().is_err());
}

#[test]
fn frame_for_an_absent_controller_is_dropped() {
    let mut registry = Registry::new();
    let (tx_b, mut rx_b) = channel();
    assert_eq!(registry.send_to_controller(text("x")), ControllerDelivery::Absent);
    registry.register(client(2), tx_b);
    assert_eq!(registry.send_to_controller(text("x")), ControllerDelivery::Absent);
    assert!(rx_b.try_recv().is_err());
}

#[test]
fn frame_for_a_controller_that_is_gone_fails() {
    let mut registry = Registry::new();
    let (tx_a, rx_a) = channel();
    registry.register(ClientId::controller(), tx_a);
    drop(rx_a);
    assert_eq!(registry.send_to_controller(text("x")), ControllerDelivery::Failed);
    assert!(registry.contains(ClientId::controller()));
}

#[test]
fn controller_leaves_on_deregistration() {
    let mut registry = Registry::new();
    let (tx_a, mut rx_a) = channel();
    registry.register(ClientId::controller(), tx_a);
    registry.deregister(ClientId::controller());
    assert_eq!(registry.send_to_controller(text("x")), ControllerDelivery::Absent);
    assert!(rx_a.try_recv().is_err());
    assert_eq!(registry.len(), 0);
}
