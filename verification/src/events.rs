//! The event coordinator: three producers (notifications, window
//! snapshots, workspace-change signals) feed one consumer. The
//! workspace stream is activated only after the consumer has seen an
//! event of a different kind first; until then workspace signals are
//! dropped rather than queued, so a stale workspace decision can never
//! precede the first real window or notification event.

use vstd::prelude::*;

use crate::notifications::NotificationData;
use crate::windows::WindowSnapshot;

verus! {

/// One tagged event of the merged consumer feed.
pub enum EventMessage {
    /// An attributed notification arrived.
    Notification(Box<NotificationData>),
    /// A fresh window snapshot replaces the previous one.
    WindowUpdate(WindowSnapshot),
    /// Workspaces changed; the payload carries nothing, the signal is
    /// purely a trigger.
    Workspaces(()),
}

/// The two states of the deferred workspace subscription.
pub enum ActivationState {
    /// No event delivered yet: workspace signals are dropped.
    Pending,
    /// An event of another kind has been delivered: workspace signals
    /// flow to the consumer.
    Active,
}

/// What the coordinator hands the consumer for one incoming event.
pub open spec fn spec_deliver(s: ActivationState, e: EventMessage) -> Option<EventMessage> {
    if s is Pending && e is Workspaces {
        None
    } else {
        Some(e)
    }
}

/// The coordinator's next state: the first delivered event (necessarily
/// of a non-workspace kind) activates the workspace stream for good.
pub open spec fn spec_next_state(s: ActivationState, e: EventMessage) -> ActivationState {
    if s is Active || !(e is Workspaces) {
        ActivationState::Active
    } else {
        ActivationState::Pending
    }
}

/// The merged, ordered event feed for exactly one consumer.
pub struct EventCoordinator {
    activation: ActivationState,
}

impl EventCoordinator {
    /// The current activation state.
    pub closed spec fn state(&self) -> ActivationState {
        self.activation
    }

    /// A coordinator that has delivered nothing yet.
    pub fn new() -> (c: Self)
        ensures
            c.state() is Pending,
    {
        EventCoordinator { activation: ActivationState::Pending }
    }

    /// Feed one incoming event through the coordinator: the result is
    /// what the consumer sees, if anything.
    pub fn process(&mut self, event: EventMessage) -> (r: Option<EventMessage>)
        ensures
            r == spec_deliver(old(self).state(), event),
            final(self).state() == spec_next_state(old(self).state(), event),
    {
        match self.activation {
            ActivationState::Pending => {
                match event {
                    EventMessage::Workspaces(_) => None,
                    _ => {
                        self.activation = ActivationState::Active;
                        Some(event)
                    },
                }
            },
            ActivationState::Active => Some(event),
        }
    }
}

/// The events the consumer sees for a whole incoming sequence, starting
/// from the given state.
pub open spec fn spec_delivered(s: ActivationState, events: Seq<EventMessage>) -> Seq<EventMessage>
    decreases events.len(),
{
    if events.len() == 0 {
        Seq::empty()
    } else {
        let head = spec_deliver(s, events[0]);
        let rest = spec_delivered(spec_next_state(s, events[0]), events.drop_first());
        match head {
            Some(e) => seq![e] + rest,
            None => rest,
        }
    }
}

/// Deferred-activation law: whatever sequence of events the producers
/// emit, the first event a fresh coordinator ever delivers is not a
/// workspace-change signal — the consumer observes an event of a
/// different kind before any workspace event.
pub proof fn lemma_first_delivery_not_workspace(events: Seq<EventMessage>)
    ensures
        spec_delivered(ActivationState::Pending, events).len() > 0 ==> !(spec_delivered(
            ActivationState::Pending,
            events,
        )[0] is Workspaces),
    decreases events.len(),
{
    if events.len() > 0 {
        if spec_deliver(ActivationState::Pending, events[0]) is None {
            lemma_first_delivery_not_workspace(events.drop_first());
            assert(spec_next_state(ActivationState::Pending, events[0]) is Pending);
        }
    }
}

/// Exactly the leading workspace signals are dropped: once the first
/// event of another kind arrives, it and everything after it is
/// delivered unchanged.
pub proof fn lemma_pending_drops_leading_workspace(events: Seq<EventMessage>, k: int)
    requires
        0 <= k < events.len(),
        forall|j: int| 0 <= j < k ==> (#[trigger] events[j]) is Workspaces,
        !(events[k] is Workspaces),
    ensures
        spec_delivered(ActivationState::Pending, events) == events.skip(k),
    decreases k,
{
    if k == 0 {
        lemma_active_delivers_all(events.drop_first());
        assert(spec_delivered(ActivationState::Pending, events) =~= events.skip(0)) by {
            assert(spec_next_state(ActivationState::Pending, events[0]) is Active);
            assert(spec_delivered(ActivationState::Active, events.drop_first()) =~= events.drop_first());
        }
    } else {
        assert(events[0] is Workspaces);
        assert(events.drop_first()[k - 1] == events[k]);
        assert(forall|j: int| 0 <= j < k - 1 ==> (#[trigger] events.drop_first()[j]) == events[j + 1]);
        lemma_pending_drops_leading_workspace(events.drop_first(), k - 1);
        assert(events.drop_first().skip(k - 1) =~= events.skip(k));
    }
}

/// Activation is one-way: once active, the coordinator delivers every
/// event, workspace signals included.
pub proof fn lemma_active_delivers_all(events: Seq<EventMessage>)
    ensures
        spec_delivered(ActivationState::Active, events).len() == events.len(),
        forall|i: int|
            0 <= i < events.len() ==> spec_delivered(ActivationState::Active, events)[i]
                == events[i],
    decreases events.len(),
{
    if events.len() > 0 {
        lemma_active_delivers_all(events.drop_first());
        assert(spec_next_state(ActivationState::Active, events[0]) is Active);
        assert forall|i: int| 0 <= i < events.len() implies spec_delivered(
            ActivationState::Active,
            events,
        )[i] == events[i] by {
            if i > 0 {
                assert(events.drop_first()[i - 1] == events[i]);
            }
        }
    }
}

} // verus!
