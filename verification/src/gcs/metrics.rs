//! The metrics of the control service.

use crate::gcs::nodes::NodeMetrics;
use crate::util::prom;
use crate::util::prom::{count, lower, raise, Exposition, MetricsError};
use vstd::prelude::*;

verus! {

/// The metrics of the control service.
#[derive(Debug, Clone, Copy, PartialEq, Eq, Structural)]
pub struct Metrics {
    /// Nodes registered.
    pub register_node_total: u64,
    /// Heartbeats received.
    pub heartbeat_received_total: u64,
    /// Nodes in use.
    pub nodes_alive: i64,
    /// Nodes.
    pub nodes_total: i64,
    /// Running jobs.
    pub jobs_running: i64,
    /// Named actors.
    pub actors_total: i64,
    /// Events published.
    pub watch_events_published_total: u64,
}

/// Every metric is in order.
proof fn lemma_in_order()
    ensures
        prom::in_order(
            "rayd_gcs_actors_total"@,
            "Named actors registered in the directory."@,
            Seq::empty(),
        ),
        prom::in_order(
            "rayd_gcs_heartbeat_received_total"@,
            "Cumulative count of Heartbeat RPCs accepted."@,
            Seq::empty(),
        ),
        prom::in_order(
            "rayd_gcs_jobs_running"@,
            "Jobs currently in the Running state."@,
            Seq::empty(),
        ),
        prom::in_order(
            "rayd_gcs_nodes_alive"@,
            "Number of nodes currently in the Alive state."@,
            Seq::empty(),
        ),
        prom::in_order(
            "rayd_gcs_nodes_total"@,
            "All nodes the GCS has seen this session, regardless of status."@,
            Seq::empty(),
        ),
        prom::in_order(
            "rayd_gcs_register_node_total"@,
            "Cumulative count of Register RPCs accepted."@,
            Seq::empty(),
        ),
        prom::in_order(
            "rayd_gcs_watch_events_published_total"@,
            "Cumulative count of NodeEvents broadcast to WatchNodes subscribers."@,
            Seq::empty(),
        ),
{
    reveal_with_fuel(prom::goes_on_from, 50);
    reveal_strlit("rayd_gcs_actors_total");
    reveal_strlit("Named actors registered in the directory.");
    reveal_strlit("rayd_gcs_heartbeat_received_total");
    reveal_strlit("Cumulative count of Heartbeat RPCs accepted.");
    reveal_strlit("rayd_gcs_jobs_running");
    reveal_strlit("Jobs currently in the Running state.");
    reveal_strlit("rayd_gcs_nodes_alive");
    reveal_strlit("Number of nodes currently in the Alive state.");
    reveal_strlit("rayd_gcs_nodes_total");
    reveal_strlit("All nodes the GCS has seen this session, regardless of status.");
    reveal_strlit("rayd_gcs_register_node_total");
    reveal_strlit("Cumulative count of Register RPCs accepted.");
    reveal_strlit("rayd_gcs_watch_events_published_total");
    reveal_strlit("Cumulative count of NodeEvents broadcast to WatchNodes subscribers.");
}

impl Metrics {
    /// The metrics of a service that has served nothing.
    pub fn new() -> (r: Self)
        ensures
            r == (Metrics {
                register_node_total: 0,
                heartbeat_received_total: 0,
                nodes_alive: 0,
                nodes_total: 0,
                jobs_running: 0,
                actors_total: 0,
                watch_events_published_total: 0,
            }),
    {
        Metrics {
            register_node_total: 0,
            heartbeat_received_total: 0,
            nodes_alive: 0,
            nodes_total: 0,
            jobs_running: 0,
            actors_total: 0,
            watch_events_published_total: 0,
        }
    }

    /// The metrics after a change of nodes.
    pub open spec fn with_nodes(self, u: NodeMetrics) -> Metrics {
        Metrics {
            register_node_total: prom::counted(self.register_node_total, u.registered),
            heartbeat_received_total: prom::counted(self.heartbeat_received_total, u.heartbeats),
            nodes_alive: prom::moved(
                prom::moved(self.nodes_alive, prom::clamped(u.alive_added as nat) as int),
                -(prom::clamped(u.alive_removed as nat) as int),
            ),
            nodes_total: prom::moved(self.nodes_total, prom::clamped(u.registered as nat) as int),
            watch_events_published_total: prom::counted(
                self.watch_events_published_total,
                u.events,
            ),
            ..self
        }
    }

    /// Takes in a change of nodes.
    pub fn update_nodes(&mut self, u: NodeMetrics)
        ensures
            *final(self) == old(self).with_nodes(u),
    {
        self.register_node_total = count(self.register_node_total, u.registered);
        self.heartbeat_received_total = count(self.heartbeat_received_total, u.heartbeats);
        self.nodes_alive = lower(raise(self.nodes_alive, u.alive_added), u.alive_removed);
        self.nodes_total = raise(self.nodes_total, u.registered);
        self.watch_events_published_total = count(self.watch_events_published_total, u.events);
    }

    /// A job began.
    pub fn job_added(&mut self)
        ensures
            *final(self) == (Metrics {
                jobs_running: prom::moved(old(self).jobs_running, 1),
                ..*old(self)
            }),
    {
        self.jobs_running = raise(self.jobs_running, 1);
    }

    /// A job ended, which was running until then or not.
    pub fn job_finished(&mut self, was_running: bool)
        ensures
            *final(self) == (if was_running {
                Metrics { jobs_running: prom::moved(old(self).jobs_running, -1), ..*old(self) }
            } else {
                *old(self)
            }),
    {
        if was_running {
            self.jobs_running = lower(self.jobs_running, 1);
        }
    }

    /// A name was given to an actor, which had it before or not.
    pub fn actor_registered(&mut self, added: bool)
        ensures
            *final(self) == (if added {
                Metrics { actors_total: prom::moved(old(self).actors_total, 1), ..*old(self) }
            } else {
                *old(self)
            }),
    {
        if added {
            self.actors_total = raise(self.actors_total, 1);
        }
    }

    /// A name was taken back.
    pub fn actor_unregistered(&mut self)
        ensures
            *final(self) == (Metrics {
                actors_total: prom::moved(old(self).actors_total, -1),
                ..*old(self)
            }),
    {
        self.actors_total = lower(self.actors_total, 1);
    }

    /// The text that is shown: the metrics in the order of their names.
    pub open spec fn shown(self) -> Seq<char> {
        Seq::<char>::empty() + prom::part(
            "rayd_gcs_actors_total"@,
            prom::plain(
                true,
                "Named actors registered in the directory."@,
                self.actors_total as int,
            ),
        ) + prom::part(
            "rayd_gcs_heartbeat_received_total"@,
            prom::plain(
                false,
                "Cumulative count of Heartbeat RPCs accepted."@,
                self.heartbeat_received_total as int,
            ),
        ) + prom::part(
            "rayd_gcs_jobs_running"@,
            prom::plain(
                true,
                "Jobs currently in the Running state."@,
                self.jobs_running as int,
            ),
        ) + prom::part(
            "rayd_gcs_nodes_alive"@,
            prom::plain(
                true,
                "Number of nodes currently in the Alive state."@,
                self.nodes_alive as int,
            ),
        ) + prom::part(
            "rayd_gcs_nodes_total"@,
            prom::plain(
                true,
                "All nodes the GCS has seen this session, regardless of status."@,
                self.nodes_total as int,
            ),
        ) + prom::part(
            "rayd_gcs_register_node_total"@,
            prom::plain(
                false,
                "Cumulative count of Register RPCs accepted."@,
                self.register_node_total as int,
            ),
        ) + prom::part(
            "rayd_gcs_watch_events_published_total"@,
            prom::plain(
                false,
                "Cumulative count of NodeEvents broadcast to WatchNodes subscribers."@,
                self.watch_events_published_total as int,
            ),
        )
    }

    /// The metrics as a text.
    pub fn encode_text(&self) -> (r: Result<String, MetricsError>)
        ensures
            r matches Ok(t) && t@ == self.shown(),
    {
        proof {
            lemma_in_order();
        }
        let mut e = Exposition::new();
        e.gauge(
            "rayd_gcs_actors_total",
            "Named actors registered in the directory.",
            self.actors_total,
        );
        e.counter(
            "rayd_gcs_heartbeat_received_total",
            "Cumulative count of Heartbeat RPCs accepted.",
            self.heartbeat_received_total,
        );
        e.gauge(
            "rayd_gcs_jobs_running",
            "Jobs currently in the Running state.",
            self.jobs_running,
        );
        e.gauge(
            "rayd_gcs_nodes_alive",
            "Number of nodes currently in the Alive state.",
            self.nodes_alive,
        );
        e.gauge(
            "rayd_gcs_nodes_total",
            "All nodes the GCS has seen this session, regardless of status.",
            self.nodes_total,
        );
        e.counter(
            "rayd_gcs_register_node_total",
            "Cumulative count of Register RPCs accepted.",
            self.register_node_total,
        );
        e.counter(
            "rayd_gcs_watch_events_published_total",
            "Cumulative count of NodeEvents broadcast to WatchNodes subscribers.",
            self.watch_events_published_total,
        );
        e.text()
    }
}

/// The gauge of nodes in use stays at their number: it follows what a call adds and takes
/// away, as far as a gauge can count.
pub proof fn law_alive_gauge(m: Metrics, u: NodeMetrics, before: nat, after: nat)
    requires
        m.nodes_alive == before,
        after == before + u.alive_added - u.alive_removed,
        before + u.alive_added <= i64::MAX,
        u.alive_removed <= i64::MAX,
    ensures
        m.with_nodes(u).nodes_alive == after,
{
}

/// Every metric is shown under its own name, with its own help text and value.
pub proof fn law_every_metric_is_shown(m: Metrics)
    ensures
        prom::shows_part(
            m.shown(),
            "rayd_gcs_actors_total"@,
            prom::plain(
                true,
                "Named actors registered in the directory."@,
                m.actors_total as int,
            ),
        ),
        prom::shows_part(
            m.shown(),
            "rayd_gcs_heartbeat_received_total"@,
            prom::plain(
                false,
                "Cumulative count of Heartbeat RPCs accepted."@,
                m.heartbeat_received_total as int,
            ),
        ),
        prom::shows_part(
            m.shown(),
            "rayd_gcs_jobs_running"@,
            prom::plain(
                true,
                "Jobs currently in the Running state."@,
                m.jobs_running as int,
            ),
        ),
        prom::shows_part(
            m.shown(),
            "rayd_gcs_nodes_alive"@,
            prom::plain(
                true,
                "Number of nodes currently in the Alive state."@,
                m.nodes_alive as int,
            ),
        ),
        prom::shows_part(
            m.shown(),
            "rayd_gcs_nodes_total"@,
            prom::plain(
                true,
                "All nodes the GCS has seen this session, regardless of status."@,
                m.nodes_total as int,
            ),
        ),
        prom::shows_part(
            m.shown(),
            "rayd_gcs_register_node_total"@,
            prom::plain(
                false,
                "Cumulative count of Register RPCs accepted."@,
                m.register_node_total as int,
            ),
        ),
        prom::shows_part(
            m.shown(),
            "rayd_gcs_watch_events_published_total"@,
            prom::plain(
                false,
                "Cumulative count of NodeEvents broadcast to WatchNodes subscribers."@,
                m.watch_events_published_total as int,
            ),
        ),
{
    let t0 = Seq::<char>::empty();
    let m1 = prom::plain(
        true,
        "Named actors registered in the directory."@,
        m.actors_total as int,
    );
    let p1 = prom::part("rayd_gcs_actors_total"@, m1);
    let t1 = t0 + p1;
    prom::lemma_shows_last(t0, "rayd_gcs_actors_total"@, m1);
    let m2 = prom::plain(
        false,
        "Cumulative count of Heartbeat RPCs accepted."@,
        m.heartbeat_received_total as int,
    );
    let p2 = prom::part("rayd_gcs_heartbeat_received_total"@, m2);
    let t2 = t1 + p2;
    prom::lemma_shows_last(t1, "rayd_gcs_heartbeat_received_total"@, m2);
    prom::lemma_shows_on(t1, p2, "rayd_gcs_actors_total"@, m1);
    let m3 = prom::plain(
        true,
        "Jobs currently in the Running state."@,
        m.jobs_running as int,
    );
    let p3 = prom::part("rayd_gcs_jobs_running"@, m3);
    let t3 = t2 + p3;
    prom::lemma_shows_last(t2, "rayd_gcs_jobs_running"@, m3);
    prom::lemma_shows_on(t2, p3, "rayd_gcs_actors_total"@, m1);
    prom::lemma_shows_on(t2, p3, "rayd_gcs_heartbeat_received_total"@, m2);
    let m4 = prom::plain(
        true,
        "Number of nodes currently in the Alive state."@,
        m.nodes_alive as int,
    );
    let p4 = prom::part("rayd_gcs_nodes_alive"@, m4);
    let t4 = t3 + p4;
    prom::lemma_shows_last(t3, "rayd_gcs_nodes_alive"@, m4);
    prom::lemma_shows_on(t3, p4, "rayd_gcs_actors_total"@, m1);
    prom::lemma_shows_on(t3, p4, "rayd_gcs_heartbeat_received_total"@, m2);
    prom::lemma_shows_on(t3, p4, "rayd_gcs_jobs_running"@, m3);
    let m5 = prom::plain(
        true,
        "All nodes the GCS has seen this session, regardless of status."@,
        m.nodes_total as int,
    );
    let p5 = prom::part("rayd_gcs_nodes_total"@, m5);
    let t5 = t4 + p5;
    prom::lemma_shows_last(t4, "rayd_gcs_nodes_total"@, m5);
    prom::lemma_shows_on(t4, p5, "rayd_gcs_actors_total"@, m1);
    prom::lemma_shows_on(t4, p5, "rayd_gcs_heartbeat_received_total"@, m2);
    prom::lemma_shows_on(t4, p5, "rayd_gcs_jobs_running"@, m3);
    prom::lemma_shows_on(t4, p5, "rayd_gcs_nodes_alive"@, m4);
    let m6 = prom::plain(
        false,
        "Cumulative count of Register RPCs accepted."@,
        m.register_node_total as int,
    );
    let p6 = prom::part("rayd_gcs_register_node_total"@, m6);
    let t6 = t5 + p6;
    prom::lemma_shows_last(t5, "rayd_gcs_register_node_total"@, m6);
    prom::lemma_shows_on(t5, p6, "rayd_gcs_actors_total"@, m1);
    prom::lemma_shows_on(t5, p6, "rayd_gcs_heartbeat_received_total"@, m2);
    prom::lemma_shows_on(t5, p6, "rayd_gcs_jobs_running"@, m3);
    prom::lemma_shows_on(t5, p6, "rayd_gcs_nodes_alive"@, m4);
    prom::lemma_shows_on(t5, p6, "rayd_gcs_nodes_total"@, m5);
    let m7 = prom::plain(
        false,
        "Cumulative count of NodeEvents broadcast to WatchNodes subscribers."@,
        m.watch_events_published_total as int,
    );
    let p7 = prom::part("rayd_gcs_watch_events_published_total"@, m7);
    let t7 = t6 + p7;
    prom::lemma_shows_last(t6, "rayd_gcs_watch_events_published_total"@, m7);
    prom::lemma_shows_on(t6, p7, "rayd_gcs_actors_total"@, m1);
    prom::lemma_shows_on(t6, p7, "rayd_gcs_heartbeat_received_total"@, m2);
    prom::lemma_shows_on(t6, p7, "rayd_gcs_jobs_running"@, m3);
    prom::lemma_shows_on(t6, p7, "rayd_gcs_nodes_alive"@, m4);
    prom::lemma_shows_on(t6, p7, "rayd_gcs_nodes_total"@, m5);
    prom::lemma_shows_on(t6, p7, "rayd_gcs_register_node_total"@, m6);
}

/// What a change of nodes does to each number, as long as it stays within bounds: registrations,
/// heartbeats and events are added, and the nodes in use follow what is added and taken away.
pub proof fn law_node_changes_are_counted(m: Metrics, u: NodeMetrics)
    requires
        m.register_node_total + u.registered <= u64::MAX,
        m.heartbeat_received_total + u.heartbeats <= u64::MAX,
        m.watch_events_published_total + u.events <= u64::MAX,
        u.alive_added <= i64::MAX,
        u.alive_removed <= i64::MAX,
        u.registered <= i64::MAX,
        0 <= m.nodes_alive,
        m.nodes_alive + u.alive_added <= i64::MAX,
        0 <= m.nodes_total,
        m.nodes_total + u.registered <= i64::MAX,
    ensures
        ({
            let n = m.with_nodes(u);
            &&& n.register_node_total == m.register_node_total + u.registered
            &&& n.heartbeat_received_total == m.heartbeat_received_total + u.heartbeats
            &&& n.watch_events_published_total == m.watch_events_published_total + u.events
            &&& n.nodes_alive == m.nodes_alive + u.alive_added - u.alive_removed
            &&& n.nodes_total == m.nodes_total + u.registered
            &&& n.jobs_running == m.jobs_running
            &&& n.actors_total == m.actors_total
        }),
{
}

} // verus!
