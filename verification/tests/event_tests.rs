use bottom::event::{BottomEvent, EventBus};
use bottom::input::{KeyCode, KeyInput};

fn key(c: char) -> BottomEvent {
    BottomEvent::KeyInput(KeyInput { code: KeyCode::Char(c), ctrl: false, alt: false, shift: false })
}

#[test]
fn events_are_received_in_send_order() {
    // Sends from two producers, interleaved; the consumer sees them in
    // exactly the total order they arrived, so each producer's own order
    // is preserved.
    let mut bus = EventBus::new();
    bus.send(1, key('a'));
    bus.send(2, BottomEvent::Clean);
    bus.send(1, key('b'));
    bus.send(2, BottomEvent::Resize);

    let e1 = bus.recv().unwrap();
    assert_eq!(e1.source, 1);
    assert!(matches!(e1.event, BottomEvent::KeyInput(k) if k.code == KeyCode::Char('a')));

    let e2 = bus.recv().unwrap();
    assert_eq!(e2.source, 2);
    assert!(matches!(e2.event, BottomEvent::Clean));

    let e3 = bus.recv().unwrap();
    assert_eq!(e3.source, 1);
    assert!(matches!(e3.event, BottomEvent::KeyInput(k) if k.code == KeyCode::Char('b')));

    let e4 = bus.recv().unwrap();
    assert_eq!(e4.source, 2);
    assert!(matches!(e4.event, BottomEvent::Resize));

    assert!(bus.recv().is_none());
}

#[test]
fn receiving_from_an_empty_bus_yields_nothing() {
    let mut bus = EventBus::new();
    assert!(bus.recv().is_none());
    bus.send(7, BottomEvent::Resize);
    assert!(bus.recv().is_some());
    assert!(bus.recv().is_none());
}
