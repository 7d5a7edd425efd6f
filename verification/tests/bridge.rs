use puchi_sekai::bridge::{drain_apply, EventBridge, BRIDGE_CAPACITY};
use puchi_sekai::controller::{UiAction, WindowState};
use puchi_sekai::event::IPCEvent;

#[test]
fn fifo_order_kept() {
    let mut b = EventBridge::new();
    assert!(b.try_send(IPCEvent::MainToggle));
    assert!(b.try_send(IPCEvent::OpenModal));
    assert!(b.try_send(IPCEvent::Chat { message: String::from("third") }));
    assert!(matches!(b.recv(), Some(IPCEvent::MainToggle)));
    assert!(matches!(b.recv(), Some(IPCEvent::OpenModal)));
    match b.recv() {
        Some(IPCEvent::Chat { message }) => assert_eq!(message, "third"),
        _ => panic!("the third event comes third"),
    }
    assert!(b.recv().is_none());
}

#[test]
fn backpressure_no_loss() {
    let mut b = EventBridge::new();
    for _ in 0..BRIDGE_CAPACITY {
        assert!(b.try_send(IPCEvent::MainToggle));
    }
    assert_eq!(b.len(), BRIDGE_CAPACITY);
    // A saturated bridge refuses instead of discarding.
    assert!(!b.try_send(IPCEvent::Chat { message: String::from("must wait") }));
    assert_eq!(b.len(), BRIDGE_CAPACITY);
    // Every accepted event is still there.
    let mut drained = 0;
    while let Some(e) = b.recv() {
        assert!(matches!(e, IPCEvent::MainToggle));
        drained += 1;
    }
    assert_eq!(drained, BRIDGE_CAPACITY);
    // After draining, the producer's retry goes through.
    assert!(b.try_send(IPCEvent::Chat { message: String::from("must wait") }));
    assert_eq!(b.len(), 1);
}

#[test]
fn drain_applies_in_arrival_order() {
    let mut b = EventBridge::new();
    b.try_send(IPCEvent::MainToggle);
    b.try_send(IPCEvent::OpenModal);
    b.try_send(IPCEvent::MainToggle);
    let mut st = WindowState::initial();
    let acts = drain_apply(&mut b, &mut st);
    assert_eq!(acts.len(), 3);
    assert!(matches!(acts[0], UiAction::HidePrimary));
    assert!(matches!(acts[1], UiAction::CreateSecondary));
    assert!(matches!(acts[2], UiAction::ShowPrimary));
    assert!(st.primary_visible);
    assert!(b.recv().is_none());
}
