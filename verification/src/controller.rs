//! The window-lifecycle state machine.
//!
//! The UI thread owns one value of `WindowState` for the process lifetime and
//! feeds it every bridged control event, in arrival order. Each event yields
//! the action the UI layer must carry out; the state value itself tracks what
//! the windows will look like once the action is done.
use vstd::prelude::*;

use crate::event::{EventModel, IPCEvent};

verus! {

/// The lifecycle of the secondary (modal) window: no window object exists
/// yet, or exactly one does, hidden or shown.
#[derive(Clone, Copy, PartialEq, Eq, Structural, Debug)]
pub enum SecondaryState {
    Absent,
    Realized { visible: bool },
}

/// The window state owned by the UI thread: the primary overlay's visibility
/// and the secondary window's lifecycle.
#[derive(Clone, Copy, PartialEq, Eq, Structural, Debug)]
pub struct WindowState {
    pub primary_visible: bool,
    pub secondary: SecondaryState,
}

/// What the UI layer must do to carry one transition out.
pub enum UiAction {
    /// Show the primary overlay.
    ShowPrimary,
    /// Hide the primary overlay.
    HidePrimary,
    /// Construct the secondary window, apply its presentation profile, and
    /// leave it hidden and centered, ready to be revealed.
    CreateSecondary,
    /// Hand the message to the chat collaborator.
    ForwardChat { message: String },
    /// Nothing: the event asked for a state that already holds.
    NoOp,
}

/// The mathematical model of a `UiAction`.
pub enum ActionModel {
    ShowPrimary,
    HidePrimary,
    CreateSecondary,
    ForwardChat { message: Seq<char> },
    NoOp,
}

impl View for UiAction {
    type V = ActionModel;

    open spec fn view(&self) -> ActionModel {
        match self {
            UiAction::ShowPrimary => ActionModel::ShowPrimary,
            UiAction::HidePrimary => ActionModel::HidePrimary,
            UiAction::CreateSecondary => ActionModel::CreateSecondary,
            UiAction::ForwardChat { message } => ActionModel::ForwardChat { message: message@ },
            UiAction::NoOp => ActionModel::NoOp,
        }
    }
}

/// The transition relation: the state after one event and the action it asks
/// of the UI layer.
pub open spec fn spec_step(st: WindowState, e: EventModel) -> (WindowState, ActionModel) {
    match e {
        EventModel::MainToggle => if st.primary_visible {
            (
                WindowState { primary_visible: false, secondary: st.secondary },
                ActionModel::HidePrimary,
            )
        } else {
            (
                WindowState { primary_visible: true, secondary: st.secondary },
                ActionModel::ShowPrimary,
            )
        },
        EventModel::OpenModal => match st.secondary {
            SecondaryState::Absent => (
                WindowState {
                    primary_visible: st.primary_visible,
                    secondary: SecondaryState::Realized { visible: false },
                },
                ActionModel::CreateSecondary,
            ),
            SecondaryState::Realized { visible } => (st, ActionModel::NoOp),
        },
        EventModel::Chat { message } => (st, ActionModel::ForwardChat { message }),
    }
}

/// The state after a whole sequence of events, applied in order.
pub open spec fn apply_all(st: WindowState, events: Seq<EventModel>) -> WindowState
    decreases events.len(),
{
    if events.len() == 0 {
        st
    } else {
        apply_all(spec_step(st, events[0]).0, events.skip(1))
    }
}

/// The actions a whole sequence of events asks for, in order.
pub open spec fn actions_all(st: WindowState, events: Seq<EventModel>) -> Seq<ActionModel>
    decreases events.len(),
{
    if events.len() == 0 {
        Seq::empty()
    } else {
        seq![spec_step(st, events[0]).1] + actions_all(spec_step(st, events[0]).0, events.skip(1))
    }
}

/// How many of a sequence's events construct a secondary window.
pub open spec fn creations(st: WindowState, events: Seq<EventModel>) -> nat
    decreases events.len(),
{
    if events.len() == 0 {
        0
    } else {
        (if spec_step(st, events[0]).1 == ActionModel::CreateSecondary {
            1nat
        } else {
            0nat
        }) + creations(spec_step(st, events[0]).0, events.skip(1))
    }
}

impl WindowState {
    /// The state right after startup: the primary overlay has been realized
    /// and shown, and no secondary window exists.
    pub fn initial() -> (st: WindowState)
        ensures
            st == (WindowState { primary_visible: true, secondary: SecondaryState::Absent }),
    {
        WindowState { primary_visible: true, secondary: SecondaryState::Absent }
    }

    /// Applies one bridged event and returns the action the UI layer must
    /// carry out. Must be called from the UI thread only, since the returned
    /// action touches window objects.
    pub fn apply_event(&mut self, e: IPCEvent) -> (a: UiAction)
        ensures
            *final(self) == spec_step(*old(self), e@).0,
            a@ == spec_step(*old(self), e@).1,
    {
        match e {
            IPCEvent::MainToggle => {
                if self.primary_visible {
                    self.primary_visible = false;
                    UiAction::HidePrimary
                } else {
                    self.primary_visible = true;
                    UiAction::ShowPrimary
                }
            },
            IPCEvent::OpenModal => {
                match self.secondary {
                    SecondaryState::Absent => {
                        self.secondary = SecondaryState::Realized { visible: false };
                        UiAction::CreateSecondary
                    },
                    SecondaryState::Realized { .. } => UiAction::NoOp,
                }
            },
            IPCEvent::Chat { message } => UiAction::ForwardChat { message },
        }
    }

    /// Rolls the secondary window back to absent after the UI layer failed to
    /// realize it: the state machine stands where it stood before the failed
    /// transition, and a later open request will try again.
    pub fn secondary_realization_failed(&mut self)
        ensures
            *final(self) == (WindowState {
                primary_visible: old(self).primary_visible,
                secondary: SecondaryState::Absent,
            }),
    {
        self.secondary = SecondaryState::Absent;
    }
}

/// Toggle idempotence over pairs: two toggles with nothing in between return
/// the windows to exactly the state they were in.
pub proof fn lemma_toggle_pair(st: WindowState)
    ensures
        spec_step(spec_step(st, EventModel::MainToggle).0, EventModel::MainToggle).0 == st,
{
}

/// Singleton enforcement: any run of one or more open-modal events leaves
/// exactly one realized secondary window, and constructs one only if none
/// existed before.
pub proof fn lemma_singleton(st: WindowState, events: Seq<EventModel>)
    requires
        events.len() >= 1,
        forall|i: int| 0 <= i < events.len() ==> events[i] == EventModel::OpenModal,
    ensures
        apply_all(st, events).secondary is Realized,
        creations(st, events) == if st.secondary is Absent {
            1nat
        } else {
            0nat
        },
    decreases events.len(),
{
    assert(events[0] == EventModel::OpenModal);
    let st1 = spec_step(st, events[0]).0;
    assert(st1.secondary is Realized);
    assert(creations(st, events) == (if spec_step(st, events[0]).1 == ActionModel::CreateSecondary {
        1nat
    } else {
        0nat
    }) + creations(st1, events.skip(1)));
    if st.secondary is Absent {
        assert(spec_step(st, events[0]).1 == ActionModel::CreateSecondary);
    } else {
        assert(spec_step(st, events[0]).1 == ActionModel::NoOp);
    }
    assert(apply_all(st, events) == apply_all(st1, events.skip(1)));
    if events.len() == 1 {
        assert(events.skip(1).len() == 0);
        assert(creations(st1, events.skip(1)) == 0);
        assert(apply_all(st1, events.skip(1)) == st1);
    } else {
        assert(forall|i: int| 0 <= i < events.skip(1).len() ==> events.skip(1)[i]
            == EventModel::OpenModal);
        lemma_singleton(st1, events.skip(1));
    }
}

} // verus!
