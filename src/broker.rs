//! The sequencer of the subscription broker: the one loop that both answers
//! subscribe requests and decides, on each timer tick, whether to publish a
//! capacity snapshot. The loop itself, its timer, its control queue and the
//! broadcast channel belong to the runtime around this library; each time the
//! loop wakes, it hands the event here and performs the action returned.
use vstd::prelude::*;
use crate::error::ServiceError;
use crate::ledger::Ledger;
use crate::model::snapshot_of;
use crate::types::OrderStats;

verus! {

/// What woke the sequencer's loop.
#[derive(Debug)]
pub enum SequencerEvent {
    /// The publish timer fired at time `now` while `receivers` receive
    /// handles of the broadcast channel were alive.
    TimerFired { receivers: usize, now: i64 },
    /// A subscribe request arrived on the control queue.
    SubscribeRequested,
    /// The control queue closed: no request can arrive any more.
    ControlClosed,
}

/// What the loop must do next.
#[derive(Debug)]
pub enum SequencerAction {
    /// Broadcast this snapshot once.
    Publish(Vec<OrderStats>),
    /// Nobody listens: publish nothing on this tick.
    SkipTick,
    /// Create a receive handle on the broadcast channel and answer the
    /// request with it, before the loop waits again.
    Register,
    /// Answer the request with `StreamStartError`.
    Refuse,
    /// Stop polling the control queue; keep ticking.
    StopAccepting,
}

/// The shape of an action, without its payload.
#[derive(PartialEq, Eq, Structural, Clone, Copy, Debug)]
pub enum Decision {
    Publish,
    SkipTick,
    Register,
    Refuse,
    StopAccepting,
}

/// The decision the sequencer takes on an event.
pub open spec fn decide(accepting: bool, event: SequencerEvent) -> Decision {
    match event {
        SequencerEvent::TimerFired { receivers, .. } => if receivers > 0 {
            Decision::Publish
        } else {
            Decision::SkipTick
        },
        SequencerEvent::SubscribeRequested => if accepting {
            Decision::Register
        } else {
            Decision::Refuse
        },
        SequencerEvent::ControlClosed => Decision::StopAccepting,
    }
}

pub open spec fn accepts_after(accepting: bool, event: SequencerEvent) -> bool {
    match event {
        SequencerEvent::ControlClosed => false,
        _ => accepting,
    }
}

pub open spec fn decision_of(a: SequencerAction) -> Decision {
    match a {
        SequencerAction::Publish(_) => Decision::Publish,
        SequencerAction::SkipTick => Decision::SkipTick,
        SequencerAction::Register => Decision::Register,
        SequencerAction::Refuse => Decision::Refuse,
        SequencerAction::StopAccepting => Decision::StopAccepting,
    }
}

/// The sequencer's own state: whether subscribe requests are still taken.
#[derive(Debug)]
pub struct Sequencer {
    pub accepting: bool,
}

impl Sequencer {
    pub fn new() -> (r: Sequencer)
        ensures
            r.accepting,
    {
        Sequencer { accepting: true }
    }

    /// One turn of the loop. A tick publishes exactly one snapshot of the
    /// ledger as it stands at the tick's time, and only when a receiver is alive; a subscribe
    /// request is answered within the same turn, so a handle handed out is
    /// alive at the next publish decision.
    pub fn step(&mut self, event: SequencerEvent, ledger: &Ledger) -> (r: SequencerAction)
        requires
            ledger.wf(),
        ensures
            decision_of(r) == decide(old(self).accepting, event),
            final(self).accepting == accepts_after(old(self).accepting, event),
            r matches SequencerAction::Publish(s) ==> (event matches SequencerEvent::TimerFired {
                now,
                ..
            } && s@.map_values(|x: OrderStats| x@) == snapshot_of(ledger@, now)),
    {
        match event {
            SequencerEvent::TimerFired { receivers, now } => {
                if receivers > 0 {
                    SequencerAction::Publish(ledger.get_order_stats(now))
                } else {
                    SequencerAction::SkipTick
                }
            },
            SequencerEvent::SubscribeRequested => {
                if self.accepting {
                    SequencerAction::Register
                } else {
                    SequencerAction::Refuse
                }
            },
            SequencerEvent::ControlClosed => {
                self.accepting = false;
                SequencerAction::StopAccepting
            },
        }
    }
}

/// The outcome of a subscribe call: the handle, when the request reached the
/// sequencer and its answer came back; `StreamStartError` otherwise.
pub fn stream_start<H>(request_sent: bool, reply: Option<H>) -> (r: Result<H, ServiceError>)
    ensures
        r is Ok <==> request_sent && reply is Some,
        r matches Ok(h) ==> reply == Some(h),
        r matches Err(e) ==> e is StreamStartError,
{
    if !request_sent {
        return Err(ServiceError::StreamStartError);
    }
    match reply {
        Some(h) => Ok(h),
        None => Err(ServiceError::StreamStartError),
    }
}

/// One item of a subscriber's stream: a received snapshot passes through; a
/// lag report (how many snapshots the subscriber missed) becomes
/// `StreamError` on this stream alone.
pub fn stream_item<T>(received: Result<T, u64>) -> (r: Result<T, ServiceError>)
    ensures
        r is Ok <==> received is Ok,
        r matches Ok(v) ==> received == Ok::<T, u64>(v),
        r matches Err(e) ==> e is StreamError,
{
    match received {
        Ok(v) => Ok(v),
        Err(_) => Err(ServiceError::StreamError),
    }
}

} // verus!
