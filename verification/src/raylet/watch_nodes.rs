//! The subscription to changes of nodes, kept up over lost connections.

use crate::gcs::nodes;
use crate::gcs::nodes::{NodeEvent, NodeStatus};
use crate::gcs::status::RpcCode;
use crate::raylet::node_index;
use crate::raylet::node_index::{node_id_from_addr, NodeIndex, StatusTransition};
use vstd::prelude::*;

verus! {

/// Time before the first new attempt.
pub const INITIAL_BACKOFF_MS: u64 = 200;

/// Most time between two attempts.
pub const MAX_BACKOFF_MS: u64 = 10_000;

/// How a stream of events ended.
#[derive(Debug, Clone, Copy, PartialEq, Eq, Structural)]
pub enum StreamOutcome {
    /// The agent stops.
    Shutdown,
    /// Events were lost: start over.
    ResetResume,
    /// The connection failed.
    TransientError,
    /// The service closed the stream.
    CleanReset,
}

/// What to do after a stream ended.
#[derive(Debug, Clone, Copy, PartialEq, Eq, Structural)]
pub enum WatchAction {
    /// Stop.
    Stop,
    /// Subscribe at once.
    Subscribe,
    /// Wait for so many milliseconds, then subscribe unless the agent stops.
    SleepThenSubscribe(u64),
}

/// The state of the subscription.
#[derive(Debug, Clone, Copy, PartialEq, Eq, Structural)]
pub struct WatchState {
    /// The last event that was seen; 0 to start with a snapshot.
    pub last_seen_sequence: u64,
    /// Time before the next attempt after a failure.
    pub backoff_ms: u64,
}

/// Twice the time, up to the most.
pub open spec fn longer_backoff(ms: u64) -> u64 {
    if 2 * ms < MAX_BACKOFF_MS {
        (2 * ms) as u64
    } else {
        MAX_BACKOFF_MS
    }
}

/// The state after a stream ended.
pub open spec fn watch_next(s: WatchState, outcome: StreamOutcome) -> WatchState {
    match outcome {
        StreamOutcome::Shutdown => s,
        StreamOutcome::ResetResume => WatchState {
            last_seen_sequence: 0,
            backoff_ms: INITIAL_BACKOFF_MS,
        },
        StreamOutcome::TransientError => WatchState {
            backoff_ms: longer_backoff(s.backoff_ms),
            ..s
        },
        StreamOutcome::CleanReset => WatchState { backoff_ms: INITIAL_BACKOFF_MS, ..s },
    }
}

/// What to do after a stream ended.
pub open spec fn watch_action(s: WatchState, outcome: StreamOutcome) -> WatchAction {
    match outcome {
        StreamOutcome::Shutdown => WatchAction::Stop,
        StreamOutcome::TransientError => WatchAction::SleepThenSubscribe(s.backoff_ms),
        _ => WatchAction::Subscribe,
    }
}

/// How a stream ends with a failure, or an attempt to subscribe does: that events were lost
/// means to start over.
pub open spec fn failure_outcome(code: RpcCode) -> StreamOutcome {
    if code == RpcCode::OutOfRange {
        StreamOutcome::ResetResume
    } else {
        StreamOutcome::TransientError
    }
}

/// The state after an event with the given number: the connection works, so the next failure
/// is a first one.
pub open spec fn watch_seen(s: WatchState, sequence: u64) -> WatchState {
    WatchState {
        last_seen_sequence: if sequence > s.last_seen_sequence {
            sequence
        } else {
            s.last_seen_sequence
        },
        backoff_ms: INITIAL_BACKOFF_MS,
    }
}

/// The node that an event reports as gone for the first time.
pub open spec fn newly_dead<A>(
    m: Map<Seq<u8>, node_index::NodeEntry<A>>,
    event: nodes::EventModel,
    addr: Option<A>,
) -> Option<Seq<u8>> {
    match event.node {
        None => None,
        Some(info) => match node_index::index_transition(m, info, addr) {
            StatusTransition::Inserted(NodeStatus::Dead) => node_index::event_node(info, addr),
            StatusTransition::Changed { to: NodeStatus::Dead, .. } => node_index::event_node(
                info,
                addr,
            ),
            _ => None,
        },
    }
}

impl WatchState {
    /// The state before the first attempt.
    pub fn new() -> (r: Self)
        ensures
            r == (WatchState { last_seen_sequence: 0, backoff_ms: 200 }),
    {
        WatchState { last_seen_sequence: 0, backoff_ms: INITIAL_BACKOFF_MS }
    }

    /// An attempt to subscribe failed: where the position to go on from is gone, the next
    /// attempt starts over at once; after another failure it waits.
    pub fn subscribe_failed(&mut self, code: RpcCode) -> (action: WatchAction)
        ensures
            *final(self) == watch_next(*old(self), failure_outcome(code)),
            action == watch_action(*old(self), failure_outcome(code)),
    {
        self.stream_ended(stream_failed(code))
    }

    /// A stream ended.
    pub fn stream_ended(&mut self, outcome: StreamOutcome) -> (action: WatchAction)
        ensures
            *final(self) == watch_next(*old(self), outcome),
            action == watch_action(*old(self), outcome),
    {
        match outcome {
            StreamOutcome::Shutdown => WatchAction::Stop,
            StreamOutcome::ResetResume => {
                self.last_seen_sequence = 0;
                self.backoff_ms = INITIAL_BACKOFF_MS;
                WatchAction::Subscribe
            },
            StreamOutcome::TransientError => {
                let sleep_ms: u64 = self.backoff_ms;
                self.backoff_ms = if sleep_ms < MAX_BACKOFF_MS / 2 {
                    2 * sleep_ms
                } else {
                    MAX_BACKOFF_MS
                };
                WatchAction::SleepThenSubscribe(sleep_ms)
            },
            StreamOutcome::CleanReset => {
                self.backoff_ms = INITIAL_BACKOFF_MS;
                WatchAction::Subscribe
            },
        }
    }

    /// An event came; `addr` is what its node's address text was resolved to. Gives back
    /// the node that is gone from now on.
    pub fn event<A: Copy>(&mut self, index: &mut NodeIndex<A>, event: &NodeEvent, addr: Option<A>)
        -> (dead: Option<[u8; 16]>)
        requires
            old(index).wf(),
        ensures
            final(index).wf(),
            *final(self) == watch_seen(*old(self), event.sequence),
            final(index)@ == (match event@.node {
                None => old(index)@,
                Some(info) => node_index::index_step(old(index)@, info, addr),
            }),
            match dead {
                Some(id) => newly_dead(old(index)@, event@, addr) == Some(id@),
                None => newly_dead(old(index)@, event@, addr) is None,
            },
    {
        if event.sequence > self.last_seen_sequence {
            self.last_seen_sequence = event.sequence;
        }
        self.backoff_ms = INITIAL_BACKOFF_MS;
        let node = match &event.node {
            None => return None,
            Some(node) => node,
        };
        let gone = match index.apply_event(node, addr) {
            StatusTransition::Inserted(status) => status == NodeStatus::Dead,
            StatusTransition::Changed { from: _, to } => to == NodeStatus::Dead,
            _ => false,
        };
        if gone {
            match &node.address {
                None => None,
                Some(a) => node_id_from_addr(a),
            }
        } else {
            None
        }
    }
}

/// How a stream ends with a failure: that events were lost means to start over.
pub fn stream_failed(code: RpcCode) -> (r: StreamOutcome)
    ensures
        r == failure_outcome(code),
{
    if code == RpcCode::OutOfRange {
        StreamOutcome::ResetResume
    } else {
        StreamOutcome::TransientError
    }
}

/// The time between attempts stays between the least and the most.
pub proof fn law_backoff_is_bounded(s: WatchState, outcome: StreamOutcome)
    requires
        INITIAL_BACKOFF_MS <= s.backoff_ms <= MAX_BACKOFF_MS,
    ensures
        INITIAL_BACKOFF_MS <= watch_next(s, outcome).backoff_ms <= MAX_BACKOFF_MS,
{
}

/// After an event the next failure waits for the least time, whatever failed before.
pub proof fn law_events_reset_the_backoff(s: WatchState, sequence: u64, code: RpcCode)
    requires
        code != RpcCode::OutOfRange,
    ensures
        watch_action(watch_seen(s, sequence), failure_outcome(code))
            == WatchAction::SleepThenSubscribe(INITIAL_BACKOFF_MS),
{
}

/// A position that is gone is given up: the next attempt asks for a snapshot, at once, whether
/// the attempt to subscribe was refused or the stream ended.
pub proof fn law_lost_position_starts_over(s: WatchState)
    ensures
        watch_next(s, failure_outcome(RpcCode::OutOfRange)).last_seen_sequence == 0,
        watch_action(s, failure_outcome(RpcCode::OutOfRange)) == WatchAction::Subscribe,
{
}

/// Only lost events take the subscription back.
pub proof fn law_progress_is_kept(s: WatchState, outcome: StreamOutcome, sequence: u64)
    ensures
        watch_seen(s, sequence).last_seen_sequence >= s.last_seen_sequence,
        watch_seen(s, sequence).last_seen_sequence >= sequence,
        outcome != StreamOutcome::ResetResume ==> watch_next(s, outcome).last_seen_sequence
            == s.last_seen_sequence,
        outcome == StreamOutcome::ResetResume ==> watch_next(s, outcome).last_seen_sequence == 0,
{
}

/// A node that is gone is reported once: the same news again reports nothing.
pub proof fn law_death_is_reported_once<A>(
    m: Map<Seq<u8>, node_index::NodeEntry<A>>,
    event: nodes::EventModel,
    addr: Option<A>,
)
    requires
        event.node is Some,
    ensures
        newly_dead(node_index::index_step(m, event.node->0, addr), event, addr) is None,
{
    node_index::law_event_is_idempotent(m, event.node->0, addr);
}

/// The time before the next attempt doubles with every failure, up to ten seconds, and starts
/// over at a fifth of a second when the stream works or ends in order.
pub proof fn law_backoff_doubles(s: WatchState)
    requires
        s.backoff_ms <= MAX_BACKOFF_MS,
    ensures
        watch_action(s, StreamOutcome::TransientError) == WatchAction::SleepThenSubscribe(
            s.backoff_ms,
        ),
        2 * s.backoff_ms <= 10_000 ==> watch_next(s, StreamOutcome::TransientError).backoff_ms == 2
            * s.backoff_ms,
        2 * s.backoff_ms > 10_000 ==> watch_next(s, StreamOutcome::TransientError).backoff_ms
            == 10_000,
        watch_next(s, StreamOutcome::CleanReset).backoff_ms == 200,
        watch_next(s, StreamOutcome::ResetResume).backoff_ms == 200,
        watch_seen(s, 0).backoff_ms == 200,
        watch_next(s, StreamOutcome::Shutdown) == s,
{
}

/// The agent stops exactly on its own word, waits exactly after a failed connection, and
/// subscribes at once otherwise.
pub proof fn law_actions(s: WatchState, outcome: StreamOutcome)
    ensures
        watch_action(s, outcome) is Stop <==> outcome == StreamOutcome::Shutdown,
        watch_action(s, outcome) is SleepThenSubscribe <==> outcome
            == StreamOutcome::TransientError,
        watch_action(s, outcome) is Subscribe <==> outcome == StreamOutcome::ResetResume || outcome
            == StreamOutcome::CleanReset,
{
}

/// The last event seen is the one with the highest number.
pub proof fn law_highest_event_is_remembered(s: WatchState, a: u64, b: u64)
    ensures
        watch_seen(s, a).last_seen_sequence == s.last_seen_sequence || watch_seen(
            s,
            a,
        ).last_seen_sequence == a,
        watch_seen(watch_seen(s, a), b) == watch_seen(watch_seen(s, b), a),
{
}

/// A failure means to start over exactly where the position is gone.
pub proof fn law_failures_are_told_apart(code: RpcCode)
    ensures
        failure_outcome(code) == StreamOutcome::ResetResume <==> code == RpcCode::OutOfRange,
        failure_outcome(code) == StreamOutcome::TransientError <==> code != RpcCode::OutOfRange,
{
}

/// A node is reported as gone exactly when an event in order says so and it was not known to be
/// gone before.
pub proof fn law_death_is_reported<A>(
    m: Map<Seq<u8>, node_index::NodeEntry<A>>,
    event: nodes::EventModel,
    addr: Option<A>,
    id: Seq<u8>,
)
    ensures
        newly_dead(m, event, addr) == Some(id) <==> (event.node matches Some(info)
            && node_index::event_node(info, addr) == Some(id) && NodeStatus::of_code(info.status)
            == NodeStatus::Dead && !(m.contains_key(id) && m[id].status == NodeStatus::Dead)),
{
}

} // verus!
