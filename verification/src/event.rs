//! The control-event schema: the closed set of commands an external sender
//! process may issue to the running overlay application.
use vstd::prelude::*;

verus! {

/// A control event, as exchanged between the sender tool and the overlay
/// process. The wire form is a compact tagged record; see `codec`.
#[derive(Clone)]
pub enum IPCEvent {
    /// Flip the visibility of the primary overlay window.
    MainToggle,
    /// Create and show the singleton secondary (modal) window.
    OpenModal,
    /// Hand the contained user text to the chat collaborator.
    Chat { message: String },
}

/// The mathematical model of a control event: the same variants with the
/// message as a sequence of characters.
pub enum EventModel {
    MainToggle,
    OpenModal,
    Chat { message: Seq<char> },
}

impl View for IPCEvent {
    type V = EventModel;

    open spec fn view(&self) -> EventModel {
        match self {
            IPCEvent::MainToggle => EventModel::MainToggle,
            IPCEvent::OpenModal => EventModel::OpenModal,
            IPCEvent::Chat { message } => EventModel::Chat { message: message@ },
        }
    }
}

/// Why a byte payload was rejected at decode time.
#[derive(Clone, Copy, PartialEq, Eq, Structural, Debug)]
pub enum DecodeError {
    /// The document's tag is well-formed but names no known variant.
    UnknownVariant,
    /// The document does not have the expected shape, or a payload field is
    /// missing or mistyped.
    MalformedPayload,
}

} // verus!
