//! The keep-alive protocol of one subscription. While a subscription is
//! active, a timer tick fires a notification; a cancellation signal — sent
//! exactly once, when the subscription detaches — ends the loop at once.
//! Cancellation takes priority over a ready tick, so nothing is notified
//! after detach. The surrounding service runs the timer and delivers the
//! events; every decision is taken here.

use vstd::prelude::*;

verus! {

/// One event the keep-alive loop can wake on.
#[derive(Clone, Copy, Debug, PartialEq, Eq, Structural)]
pub enum HeartbeatEvent {
    /// The one-shot cancellation signal: the subscription has detached.
    Cancel,
    /// The periodic timer fired.
    Tick,
}

/// Whether the keep-alive loop is still running.
#[derive(Clone, Copy, Debug, PartialEq, Eq, Structural)]
pub enum SubscriptionPhase {
    Active,
    Ended,
}

/// The next phase and whether a notification is sent: a tick while active
/// notifies; cancellation ends the loop without notifying; an ended loop
/// never notifies again.
pub open spec fn spec_heartbeat_step(phase: SubscriptionPhase, event: HeartbeatEvent) -> (
    SubscriptionPhase,
    bool,
) {
    match phase {
        SubscriptionPhase::Active => match event {
            HeartbeatEvent::Cancel => (SubscriptionPhase::Ended, false),
            HeartbeatEvent::Tick => (SubscriptionPhase::Active, true),
        },
        SubscriptionPhase::Ended => (SubscriptionPhase::Ended, false),
    }
}

/// Decide one wake-up of the keep-alive loop. The caller performs the
/// returned effect: if the flag is set, broadcast a notification; if the
/// phase came back `Ended`, stop the loop.
pub fn heartbeat_step(phase: SubscriptionPhase, event: HeartbeatEvent) -> (r: (
    SubscriptionPhase,
    bool,
))
    ensures
        r == spec_heartbeat_step(phase, event),
        r.1 ==> phase is Active && event is Tick,
        event is Cancel ==> r.0 is Ended && !r.1,
        phase is Ended ==> r.0 is Ended && !r.1,
{
    match phase {
        SubscriptionPhase::Active => match event {
            HeartbeatEvent::Cancel => (SubscriptionPhase::Ended, false),
            HeartbeatEvent::Tick => (SubscriptionPhase::Active, true),
        },
        SubscriptionPhase::Ended => (SubscriptionPhase::Ended, false),
    }
}

/// How many notifications a loop starting in `phase` sends over `events`.
pub open spec fn notify_count(phase: SubscriptionPhase, events: Seq<HeartbeatEvent>) -> nat
    decreases events.len(),
{
    if events.len() == 0 {
        0
    } else {
        let step = spec_heartbeat_step(phase, events.first());
        (if step.1 {
            1nat
        } else {
            0nat
        }) + notify_count(step.0, events.drop_first())
    }
}

/// Number of ticks delivered before the first cancellation.
pub open spec fn ticks_before_cancel(events: Seq<HeartbeatEvent>) -> nat
    decreases events.len(),
{
    if events.len() == 0 {
        0
    } else if events.first() is Cancel {
        0
    } else {
        1 + ticks_before_cancel(events.drop_first())
    }
}

/// Law: once cancelled, zero further notifications are delivered, whatever
/// events still arrive.
pub proof fn lemma_no_notification_after_cancel(events: Seq<HeartbeatEvent>)
    ensures
        notify_count(SubscriptionPhase::Ended, events) == 0,
    decreases events.len(),
{
    if events.len() > 0 {
        lemma_no_notification_after_cancel(events.drop_first());
    }
}

/// Law: an active subscription is notified once per timer tick that arrives
/// before its cancellation, and not at all afterwards.
pub proof fn lemma_heartbeat_delivery(events: Seq<HeartbeatEvent>)
    ensures
        notify_count(SubscriptionPhase::Active, events) == ticks_before_cancel(events),
    decreases events.len(),
{
    if events.len() > 0 {
        if events.first() is Cancel {
            lemma_no_notification_after_cancel(events.drop_first());
        } else {
            lemma_heartbeat_delivery(events.drop_first());
        }
    }
}

/// Law: a subscription that stays active through at least `k` timer ticks —
/// no cancellation among the first `k` events — receives at least `k`
/// notifications. With a 5-second interval and 15 seconds without writes,
/// `k` is 3.
pub proof fn lemma_heartbeat_liveness(events: Seq<HeartbeatEvent>, k: int)
    requires
        0 <= k <= events.len(),
        forall|j: int| 0 <= j < k ==> events[j] is Tick,
    ensures
        notify_count(SubscriptionPhase::Active, events) >= k,
    decreases k,
{
    lemma_heartbeat_delivery(events);
    if k > 0 {
        assert(events.first() is Tick);
        lemma_heartbeat_liveness(events.drop_first(), k - 1);
        lemma_heartbeat_delivery(events.drop_first());
    }
}

} // verus!
