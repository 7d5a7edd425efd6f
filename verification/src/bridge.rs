//! The cross-thread event bridge: a bounded, order-preserving, single-consumer
//! queue of decoded control events.
//!
//! The socket server's context enqueues at the back; the UI thread's event
//! loop drains from the front. The bound gives backpressure instead of loss:
//! an enqueue on a full bridge changes nothing and tells the producer to wait
//! and retry, so no accepted event is ever discarded.
use vstd::prelude::*;

use crate::controller::{actions_all, apply_all, UiAction, WindowState};
use crate::event::{EventModel, IPCEvent};

verus! {

/// How many events the bridge absorbs before producers are made to wait: a
/// small constant, enough for bursts without unbounded growth.
pub const BRIDGE_CAPACITY: usize = 100;

/// The bounded FIFO queue that carries decoded events from the socket
/// server's context into the UI thread.
pub struct EventBridge {
    queue: Vec<IPCEvent>,
}

impl View for EventBridge {
    type V = Seq<EventModel>;

    closed spec fn view(&self) -> Seq<EventModel> {
        self.queue@.map_values(|e: IPCEvent| e@)
    }
}

/// What one enqueue does to the bridge's contents: appends when there is
/// room, changes nothing when the bridge is full.
pub open spec fn spec_send(q: Seq<EventModel>, e: EventModel) -> Seq<EventModel> {
    if q.len() < BRIDGE_CAPACITY {
        q.push(e)
    } else {
        q
    }
}

/// The contents after a whole sequence of enqueues, in order.
pub open spec fn send_all(q: Seq<EventModel>, events: Seq<EventModel>) -> Seq<EventModel>
    decreases events.len(),
{
    if events.len() == 0 {
        q
    } else {
        send_all(spec_send(q, events[0]), events.skip(1))
    }
}

impl EventBridge {
    /// An empty bridge.
    pub fn new() -> (b: EventBridge)
        ensures
            b@ == Seq::<EventModel>::empty(),
    {
        let b = EventBridge { queue: Vec::new() };
        proof {
            assert(b@ =~= Seq::<EventModel>::empty());
        }
        b
    }

    /// How many events wait in the bridge.
    pub fn len(&self) -> (n: usize)
        ensures
            n == self@.len(),
    {
        self.queue.len()
    }

    /// Enqueues at the back, unless the bridge is full: then nothing is
    /// enqueued and nothing is lost, and the producer must wait for the
    /// consumer to drain before it retries.
    pub fn try_send(&mut self, e: IPCEvent) -> (ok: bool)
        ensures
            ok == (old(self)@.len() < BRIDGE_CAPACITY),
            final(self)@ == spec_send(old(self)@, e@),
    {
        if self.queue.len() < BRIDGE_CAPACITY {
            let ghost prev = self.queue@;
            self.queue.push(e);
            proof {
                assert(self.queue@.map_values(|x: IPCEvent| x@) =~= prev.map_values(
                    |x: IPCEvent| x@,
                ).push(e@));
            }
            true
        } else {
            false
        }
    }

    /// Dequeues the event that has waited longest, if any.
    pub fn recv(&mut self) -> (r: Option<IPCEvent>)
        ensures
            match r {
                Some(e) => old(self)@.len() > 0 && e@ == old(self)@[0] && final(self)@ == old(
                    self,
                )@.skip(1),
                None => old(self)@.len() == 0 && final(self)@ == old(self)@,
            },
    {
        if self.queue.len() == 0 {
            None
        } else {
            let ghost prev = self.queue@;
            let e = self.queue.remove(0);
            proof {
                assert(self.queue@.map_values(|x: IPCEvent| x@) =~= prev.map_values(
                    |x: IPCEvent| x@,
                ).skip(1));
            }
            Some(e)
        }
    }
}

/// Ordering: as long as the bound is never hit, the bridge's contents are
/// exactly the enqueued events, behind what already waited, in enqueue order.
pub proof fn lemma_bridge_fifo(q: Seq<EventModel>, events: Seq<EventModel>)
    requires
        q.len() + events.len() <= BRIDGE_CAPACITY,
    ensures
        send_all(q, events) == q + events,
    decreases events.len(),
{
    if events.len() == 0 {
        assert(q + events =~= q);
    } else {
        assert(spec_send(q, events[0]) == q.push(events[0]));
        lemma_bridge_fifo(q.push(events[0]), events.skip(1));
        assert(q.push(events[0]) + events.skip(1) =~= q + events);
    }
}

/// Ordering, end to end: events the server accepts within the bound, enqueued
/// into an empty bridge and drained on the UI thread, reach the window state
/// in exactly acceptance order — the same state and the same actions as if
/// each event had been applied the moment it was accepted.
pub proof fn lemma_ordering(st: WindowState, accepted: Seq<EventModel>)
    requires
        accepted.len() <= BRIDGE_CAPACITY,
    ensures
        apply_all(st, send_all(Seq::empty(), accepted)) == apply_all(st, accepted),
        actions_all(st, send_all(Seq::empty(), accepted)) == actions_all(st, accepted),
{
    lemma_bridge_fifo(Seq::empty(), accepted);
    assert(Seq::<EventModel>::empty() + accepted =~= accepted);
}

/// Backpressure, not loss: whatever an enqueue meets, every event that waited
/// in the bridge still waits in it afterwards, in its old place.
pub proof fn lemma_send_no_loss(q: Seq<EventModel>, e: EventModel)
    ensures
        forall|i: int| 0 <= i < q.len() ==> spec_send(q, e)[i] == q[i],
        spec_send(q, e).len() >= q.len(),
{
}

/// Drains the bridge on the UI thread: applies every waiting event to the
/// window state, in arrival order, and returns the actions the UI layer must
/// carry out, in that same order.
pub fn drain_apply(bridge: &mut EventBridge, st: &mut WindowState) -> (acts: Vec<UiAction>)
    ensures
        *final(st) == apply_all(*old(st), old(bridge)@),
        final(bridge)@ == Seq::<EventModel>::empty(),
        acts@.map_values(|a: UiAction| a@) == actions_all(*old(st), old(bridge)@),
{
    let mut acts: Vec<UiAction> = Vec::new();
    proof {
        assert(acts@.map_values(|a: UiAction| a@) =~= Seq::<crate::controller::ActionModel>::empty());
    }
    loop
        invariant
            apply_all(*old(st), old(bridge)@) == apply_all(*st, bridge@),
            actions_all(*old(st), old(bridge)@) == acts@.map_values(|a: UiAction| a@)
                + actions_all(*st, bridge@),
        ensures
            *st == apply_all(*old(st), old(bridge)@),
            bridge@ == Seq::<EventModel>::empty(),
            acts@.map_values(|a: UiAction| a@) == actions_all(*old(st), old(bridge)@),
        decreases bridge@.len(),
    {
        let ghost q = bridge@;
        let ghost s0 = *st;
        let ghost acts0 = acts@;
        match bridge.recv() {
            None => {
                proof {
                    assert(apply_all(*st, bridge@) == *st);
                    assert(actions_all(*st, bridge@) =~= Seq::<
                        crate::controller::ActionModel,
                    >::empty());
                    assert(acts@.map_values(|a: UiAction| a@) + Seq::<
                        crate::controller::ActionModel,
                    >::empty() =~= acts@.map_values(|a: UiAction| a@));
                    assert(bridge@ =~= Seq::<EventModel>::empty());
                }
                break ;
            },
            Some(e) => {
                let a = st.apply_event(e);
                acts.push(a);
                proof {
                    assert(apply_all(s0, q) == apply_all(*st, bridge@));
                    assert(actions_all(s0, q) == seq![a@] + actions_all(*st, bridge@));
                    assert(acts@.map_values(|x: UiAction| x@) =~= acts0.map_values(
                        |x: UiAction| x@,
                    ).push(a@));
                    assert(acts0.map_values(|x: UiAction| x@) + (seq![a@] + actions_all(
                        *st,
                        bridge@,
                    )) =~= acts@.map_values(|x: UiAction| x@) + actions_all(*st, bridge@));
                }
            },
        }
    }
    acts
}

} // verus!
