//! The service as a whole: its settings, the sweep of stale nodes and its counts.

use crate::gcs::actors;
use crate::gcs::actors::ActorsRegistry;
use crate::gcs::jobs;
use crate::gcs::jobs::JobsRegistry;
use crate::gcs::nodes;
use crate::gcs::nodes::{no_metrics, NodesRegistry, Published};
use vstd::prelude::*;

verus! {

/// Time without a heartbeat after which a node is gone, unless set otherwise.
pub const DEFAULT_HEARTBEAT_TIMEOUT_MS: u64 = 10_000;

/// Time between two sweeps, unless set otherwise.
pub const DEFAULT_SWEEP_INTERVAL_MS: u64 = 1_000;

/// Settings of the service.
#[derive(Debug, Clone, Copy, PartialEq, Eq, Structural)]
pub struct GcsServerConfig {
    /// Time without a heartbeat after which a node is gone; 0 for never.
    pub heartbeat_timeout_ms: u64,
    /// Time between two sweeps.
    pub sweep_interval_ms: u64,
}

impl Default for GcsServerConfig {
    fn default() -> (r: Self)
        ensures
            r == (GcsServerConfig { heartbeat_timeout_ms: 10_000, sweep_interval_ms: 1_000 }),
    {
        GcsServerConfig {
            heartbeat_timeout_ms: DEFAULT_HEARTBEAT_TIMEOUT_MS,
            sweep_interval_ms: DEFAULT_SWEEP_INTERVAL_MS,
        }
    }
}

impl GcsServerConfig {
    /// The settings for a timeout: sweeps come at least as often as the timeout.
    pub fn with_timeout(heartbeat_timeout_ms: u64) -> (r: Self)
        ensures
            r.heartbeat_timeout_ms == heartbeat_timeout_ms,
            r.sweep_interval_ms == (if heartbeat_timeout_ms == 0 || heartbeat_timeout_ms > 1_000 {
                1_000
            } else {
                heartbeat_timeout_ms
            }),
    {
        GcsServerConfig {
            heartbeat_timeout_ms,
            sweep_interval_ms: if heartbeat_timeout_ms == 0 || heartbeat_timeout_ms
                > DEFAULT_SWEEP_INTERVAL_MS {
                DEFAULT_SWEEP_INTERVAL_MS
            } else {
                heartbeat_timeout_ms
            },
        }
    }

    /// Time between two sweeps; nothing where there are none.
    pub fn sweep_every(&self) -> (r: Option<u64>)
        ensures
            r == (if self.heartbeat_timeout_ms == 0 {
                None
            } else if self.sweep_interval_ms < self.heartbeat_timeout_ms {
                Some(self.sweep_interval_ms)
            } else {
                Some(self.heartbeat_timeout_ms)
            }),
    {
        if self.heartbeat_timeout_ms == 0 {
            None
        } else if self.sweep_interval_ms < self.heartbeat_timeout_ms {
            Some(self.sweep_interval_ms)
        } else {
            Some(self.heartbeat_timeout_ms)
        }
    }
}

/// The time before which a node must not have been heard of last.
pub open spec fn sweep_deadline(now: u64, timeout: u64) -> u64 {
    if now >= timeout {
        (now - timeout) as u64
    } else {
        0
    }
}

/// The control service.
#[derive(Debug)]
pub struct GcsServer {
    /// The nodes.
    pub nodes: NodesRegistry,
    /// The jobs.
    pub jobs: JobsRegistry,
    /// The named actors.
    pub actors: ActorsRegistry,
    /// The settings.
    pub config: GcsServerConfig,
}

impl GcsServer {
    /// All registries are well formed.
    pub open spec fn wf(&self) -> bool {
        self.nodes.wf() && self.jobs.wf() && self.actors.wf()
    }

    /// A service that knows of nothing, for a fresh session.
    pub fn start_with_config(config: GcsServerConfig) -> (r: Self)
        ensures
            r.wf(),
            r.config == config,
            r.nodes@.nodes == Map::<Seq<u8>, nodes::NodeModel>::empty(),
            r.nodes@.buffer.len() == 0,
            r.nodes@.next == 1,
            r.jobs@ == Map::<Seq<u8>, jobs::JobEntryModel>::empty(),
            r.actors@ == Map::<Seq<char>, actors::ActorModel>::empty(),
    {
        GcsServer {
            nodes: NodesRegistry::new(),
            jobs: JobsRegistry::new(),
            actors: ActorsRegistry::new(),
            config,
        }
    }

    /// A service that knows of nothing, with the default settings.
    pub fn start() -> (r: Self)
        ensures
            r.wf(),
            r.config == (GcsServerConfig {
                heartbeat_timeout_ms: 10_000,
                sweep_interval_ms: 1_000,
            }),
            r.nodes@.nodes == Map::<Seq<u8>, nodes::NodeModel>::empty(),
            r.nodes@.buffer.len() == 0,
            r.nodes@.next == 1,
            r.jobs@ == Map::<Seq<u8>, jobs::JobEntryModel>::empty(),
            r.actors@ == Map::<Seq<char>, actors::ActorModel>::empty(),
    {
        Self::start_with_config(GcsServerConfig::default())
    }

    /// Number of nodes.
    pub fn node_count(&self) -> (n: usize)
        requires
            self.wf(),
        ensures
            n == self.nodes@.nodes.dom().len(),
    {
        self.nodes.len()
    }

    /// Number of jobs.
    pub fn job_count(&self) -> (n: usize)
        requires
            self.wf(),
        ensures
            n == self.jobs@.dom().len(),
    {
        self.jobs.len()
    }

    /// Number of named actors.
    pub fn actor_count(&self) -> (n: usize)
        requires
            self.wf(),
        ensures
            n == self.actors@.dom().len(),
    {
        self.actors.len()
    }

    /// One sweep at time `now_ms`: nodes in use that have been silent for longer than the
    /// timeout are gone. Without a timeout nothing happens.
    pub fn sweep(&mut self, now_ms: u64) -> (r: Published)
        requires
            old(self).wf(),
            old(self).nodes@.next + old(self).nodes@.nodes.dom().len() <= u64::MAX,
        ensures
            final(self).wf(),
            old(self).config.heartbeat_timeout_ms == 0 ==> {
                &&& *final(self) == *old(self)
                &&& r.events@.len() == 0
                &&& r.metrics == (nodes::NodeMetrics {
                    registered: 0,
                    alive_added: 0,
                    alive_removed: 0,
                    events: 0,
                    heartbeats: 0,
                })
            },
            final(self).jobs == old(self).jobs,
            final(self).actors == old(self).actors,
            final(self).config == old(self).config,
            final(self).nodes.order() == old(self).nodes.order(),
            old(self).config.heartbeat_timeout_ms > 0 ==> ({
                let deadline = sweep_deadline(now_ms, old(self).config.heartbeat_timeout_ms);
                let before = old(self).nodes@;
                let gone = nodes::flipped(before.nodes, old(self).nodes.order(), deadline);
                let m = nodes::RegistryModel {
                    nodes: nodes::expire_ids(before.nodes, before.nodes.dom(), deadline),
                    ..before
                };
                &&& final(self).nodes@ == m.publish_all(gone)
                &&& nodes::events_view(r.events@) == m.events(gone)
                &&& r.metrics == (nodes::NodeMetrics {
                    registered: 0,
                    alive_added: 0,
                    alive_removed: gone.len() as u64,
                    events: gone.len() as u64,
                    heartbeats: 0,
                })
            }),
    {
        let timeout: u64 = self.config.heartbeat_timeout_ms;
        if timeout == 0 {
            return Published { events: Vec::new(), metrics: no_metrics() };
        }
        let deadline: u64 = if now_ms >= timeout {
            now_ms - timeout
        } else {
            0
        };
        self.nodes.expire_stale(deadline)
    }
}

/// A node that was heard of no longer ago than the timeout outlives a sweep.
pub proof fn law_heartbeats_keep_alive(
    m: Map<Seq<u8>, nodes::NodeModel>,
    id: Seq<u8>,
    now: u64,
    timeout: u64,
)
    requires
        m.contains_key(id),
        now - m[id].last_heartbeat <= timeout,
    ensures
        nodes::expire_ids(m, m.dom(), sweep_deadline(now, timeout))[id] == m[id],
{
}

/// A node in use that was silent for longer than the timeout does not outlive a sweep.
pub proof fn law_silence_expires(
    m: Map<Seq<u8>, nodes::NodeModel>,
    id: Seq<u8>,
    now: u64,
    timeout: u64,
)
    requires
        m.contains_key(id),
        m[id].status == 1,
        now - m[id].last_heartbeat > timeout,
    ensures
        nodes::expire_ids(m, m.dom(), sweep_deadline(now, timeout))[id] == (nodes::NodeModel {
            status: 3,
            ..m[id]
        }),
{
}

/// A sweep at a time no later than the timeout finds nobody silent for too long, and otherwise
/// looks back by the timeout.
pub proof fn law_sweep_looks_back(now: u64, timeout: u64)
    ensures
        now >= timeout ==> sweep_deadline(now, timeout) + timeout == now,
        now < timeout ==> sweep_deadline(now, timeout) == 0,
{
}

/// A sweep takes no node away and brings none in, and one that is on its way out or gone stays
/// as it is, however long it was silent.
pub proof fn law_sweep_spares_others(
    m: Map<Seq<u8>, nodes::NodeModel>,
    id: Seq<u8>,
    now: u64,
    timeout: u64,
)
    ensures
        nodes::expire_ids(m, m.dom(), sweep_deadline(now, timeout)).contains_key(id)
            == m.contains_key(id),
        m.contains_key(id) && m[id].status != 1 ==> nodes::expire_ids(
            m,
            m.dom(),
            sweep_deadline(now, timeout),
        )[id] == m[id],
{
}

} // verus!
