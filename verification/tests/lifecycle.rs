use puchi_sekai::controller::{SecondaryState, UiAction, WindowState};
use puchi_sekai::event::IPCEvent;

#[test]
fn initial_state() {
    let st = WindowState::initial();
    assert!(st.primary_visible);
    assert_eq!(st.secondary, SecondaryState::Absent);
}

#[test]
fn toggle_flips_visibility() {
    let mut st = WindowState::initial();
    let a = st.apply_event(IPCEvent::MainToggle);
    assert!(matches!(a, UiAction::HidePrimary));
    assert!(!st.primary_visible);
    let a = st.apply_event(IPCEvent::MainToggle);
    assert!(matches!(a, UiAction::ShowPrimary));
    assert!(st.primary_visible);
}

#[test]
fn toggle_pair_restores_state() {
    for start_visible in [false, true] {
        let mut st = WindowState { primary_visible: start_visible, secondary: SecondaryState::Absent };
        let before = st;
        st.apply_event(IPCEvent::MainToggle);
        st.apply_event(IPCEvent::MainToggle);
        assert_eq!(st, before);
    }
}

#[test]
fn two_toggles_are_two_flips_not_one() {
    let mut st = WindowState::initial();
    let a1 = st.apply_event(IPCEvent::MainToggle);
    let a2 = st.apply_event(IPCEvent::MainToggle);
    assert!(matches!(a1, UiAction::HidePrimary));
    assert!(matches!(a2, UiAction::ShowPrimary));
}

#[test]
fn open_modal_realizes_once() {
    let mut st = WindowState::initial();
    let mut creations = 0;
    for _ in 0..7 {
        match st.apply_event(IPCEvent::OpenModal) {
            UiAction::CreateSecondary => creations += 1,
            UiAction::NoOp => {}
            _ => panic!("open-modal asks for nothing else"),
        }
    }
    assert_eq!(creations, 1);
    assert_eq!(st.secondary, SecondaryState::Realized { visible: false });
}

#[test]
fn open_modal_leaves_primary_alone() {
    let mut st = WindowState::initial();
    st.apply_event(IPCEvent::OpenModal);
    assert!(st.primary_visible);
}

#[test]
fn chat_event_is_handed_off_unchanged() {
    let mut st = WindowState::initial();
    let before = st;
    match st.apply_event(IPCEvent::Chat { message: String::from("hi there") }) {
        UiAction::ForwardChat { message } => assert_eq!(message, "hi there"),
        _ => panic!("a chat event is only handed off"),
    }
    assert_eq!(st, before);
}

#[test]
fn failed_realization_rolls_back() {
    let mut st = WindowState::initial();
    let a = st.apply_event(IPCEvent::OpenModal);
    assert!(matches!(a, UiAction::CreateSecondary));
    st.secondary_realization_failed();
    assert_eq!(st.secondary, SecondaryState::Absent);
    // The next open request tries again.
    let a = st.apply_event(IPCEvent::OpenModal);
    assert!(matches!(a, UiAction::CreateSecondary));
}
