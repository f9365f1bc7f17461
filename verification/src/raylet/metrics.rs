//! The metrics of the node's agent.

use crate::util::prom;
use crate::util::prom::{clamp, count, Exposition, MetricsError};
use vstd::prelude::*;

verus! {

/// The metrics of the node's agent.
#[derive(Debug, Clone, Copy, PartialEq, Eq, Structural)]
pub struct Metrics {
    /// Objects asked for by other nodes.
    pub pull_total: u64,
    /// Objects sent by other nodes.
    pub push_total: u64,
    /// Holders noted.
    pub register_object_total: u64,
    /// Questions for holders.
    pub get_object_locations_total: u64,
    /// Objects read back for other nodes.
    pub spill_restore_total: u64,
    /// Objects with a holder.
    pub directory_entries: i64,
    /// Lookups of the status of a known node.
    pub status_hits: u64,
    /// Lookups of the status of an unknown node.
    pub status_misses: u64,
}

/// Every metric is in order.
proof fn lemma_in_order()
    ensures
        prom::in_order(
            "rayd_node_index_status_lookups_total"@,
            "WatchNodes-driven NodeIndex lookups by outcome (hit / miss)."@,
            "outcome"@,
        ),
        prom::in_order(
            "rayd_raylet_directory_entries"@,
            "Number of (object_id → node_ids) entries in the directory."@,
            Seq::empty(),
        ),
        prom::in_order(
            "rayd_raylet_get_object_locations_total"@,
            "Cumulative count of GetObjectLocations RPCs accepted."@,
            Seq::empty(),
        ),
        prom::in_order(
            "rayd_raylet_pull_total"@,
            "Cumulative count of Pull RPCs accepted."@,
            Seq::empty(),
        ),
        prom::in_order(
            "rayd_raylet_push_total"@,
            "Cumulative count of Push RPCs accepted."@,
            Seq::empty(),
        ),
        prom::in_order(
            "rayd_raylet_register_object_total"@,
            "Cumulative count of RegisterObject RPCs accepted."@,
            Seq::empty(),
        ),
        prom::in_order(
            "rayd_raylet_spill_restore_total"@,
            "Successful spill-backend restores triggered by a Pull miss."@,
            Seq::empty(),
        ),
{
    reveal_with_fuel(prom::goes_on_from, 50);
    reveal_strlit("rayd_node_index_status_lookups_total");
    reveal_strlit("WatchNodes-driven NodeIndex lookups by outcome (hit / miss).");
    reveal_strlit("outcome");
    reveal_strlit("rayd_raylet_directory_entries");
    reveal_strlit("Number of (object_id → node_ids) entries in the directory.");
    reveal_strlit("rayd_raylet_get_object_locations_total");
    reveal_strlit("Cumulative count of GetObjectLocations RPCs accepted.");
    reveal_strlit("rayd_raylet_pull_total");
    reveal_strlit("Cumulative count of Pull RPCs accepted.");
    reveal_strlit("rayd_raylet_push_total");
    reveal_strlit("Cumulative count of Push RPCs accepted.");
    reveal_strlit("rayd_raylet_register_object_total");
    reveal_strlit("Cumulative count of RegisterObject RPCs accepted.");
    reveal_strlit("rayd_raylet_spill_restore_total");
    reveal_strlit("Successful spill-backend restores triggered by a Pull miss.");
}

impl Metrics {
    /// The metrics of an agent that has served nothing.
    pub fn new() -> (r: Self)
        ensures
            r == (Metrics {
                pull_total: 0,
                push_total: 0,
                register_object_total: 0,
                get_object_locations_total: 0,
                spill_restore_total: 0,
                directory_entries: 0,
                status_hits: 0,
                status_misses: 0,
            }),
    {
        Metrics {
            pull_total: 0,
            push_total: 0,
            register_object_total: 0,
            get_object_locations_total: 0,
            spill_restore_total: 0,
            directory_entries: 0,
            status_hits: 0,
            status_misses: 0,
        }
    }

    /// Another node asks for an object.
    pub fn pulled(&mut self)
        ensures
            *final(self) == (Metrics {
                pull_total: prom::counted(old(self).pull_total, 1),
                ..*old(self)
            }),
    {
        self.pull_total = count(self.pull_total, 1);
    }

    /// Another node sends an object.
    pub fn pushed(&mut self)
        ensures
            *final(self) == (Metrics {
                push_total: prom::counted(old(self).push_total, 1),
                ..*old(self)
            }),
    {
        self.push_total = count(self.push_total, 1);
    }

    /// A holder was noted; so many objects have one now.
    pub fn registered(&mut self, entries: usize)
        ensures
            *final(self) == (Metrics {
                register_object_total: prom::counted(old(self).register_object_total, 1),
                directory_entries: prom::clamped(entries as nat),
                ..*old(self)
            }),
    {
        self.register_object_total = count(self.register_object_total, 1);
        self.directory_entries = clamp(entries as u64);
    }

    /// The directory has changed; so many objects have a holder now.
    pub fn directory_holds(&mut self, entries: usize)
        ensures
            *final(self) == (Metrics {
                directory_entries: prom::clamped(entries as nat),
                ..*old(self)
            }),
    {
        self.directory_entries = clamp(entries as u64);
    }

    /// Another node asks for holders.
    pub fn asked_for_locations(&mut self)
        ensures
            *final(self) == (Metrics {
                get_object_locations_total: prom::counted(old(self).get_object_locations_total, 1),
                ..*old(self)
            }),
    {
        self.get_object_locations_total = count(self.get_object_locations_total, 1);
    }

    /// An object was read back.
    pub fn spill_restored(&mut self)
        ensures
            *final(self) == (Metrics {
                spill_restore_total: prom::counted(old(self).spill_restore_total, 1),
                ..*old(self)
            }),
    {
        self.spill_restore_total = count(self.spill_restore_total, 1);
    }

    /// The status of a node was looked up.
    pub fn looked_up(&mut self, found: bool)
        ensures
            *final(self) == (if found {
                Metrics { status_hits: prom::counted(old(self).status_hits, 1), ..*old(self) }
            } else {
                Metrics { status_misses: prom::counted(old(self).status_misses, 1), ..*old(self) }
            }),
    {
        if found {
            self.status_hits = count(self.status_hits, 1);
        } else {
            self.status_misses = count(self.status_misses, 1);
        }
    }

    /// The text that is shown: the metrics in the order of their names.
    pub open spec fn shown(self) -> Seq<char> {
        Seq::<char>::empty() + prom::part(
            "rayd_node_index_status_lookups_total"@,
            prom::pair(
                "WatchNodes-driven NodeIndex lookups by outcome (hit / miss)."@,
                "outcome"@,
                ("hit"@, self.status_hits as int),
                ("miss"@, self.status_misses as int),
            ),
        ) + prom::part(
            "rayd_raylet_directory_entries"@,
            prom::plain(
                true,
                "Number of (object_id → node_ids) entries in the directory."@,
                self.directory_entries as int,
            ),
        ) + prom::part(
            "rayd_raylet_get_object_locations_total"@,
            prom::plain(
                false,
                "Cumulative count of GetObjectLocations RPCs accepted."@,
                self.get_object_locations_total as int,
            ),
        ) + prom::part(
            "rayd_raylet_pull_total"@,
            prom::plain(
                false,
                "Cumulative count of Pull RPCs accepted."@,
                self.pull_total as int,
            ),
        ) + prom::part(
            "rayd_raylet_push_total"@,
            prom::plain(
                false,
                "Cumulative count of Push RPCs accepted."@,
                self.push_total as int,
            ),
        ) + prom::part(
            "rayd_raylet_register_object_total"@,
            prom::plain(
                false,
                "Cumulative count of RegisterObject RPCs accepted."@,
                self.register_object_total as int,
            ),
        ) + prom::part(
            "rayd_raylet_spill_restore_total"@,
            prom::plain(
                false,
                "Successful spill-backend restores triggered by a Pull miss."@,
                self.spill_restore_total as int,
            ),
        )
    }

    /// The metrics as a text.
    pub fn encode_text(&self) -> (r: Result<String, MetricsError>)
        ensures
            r matches Ok(t) && t@ == self.shown(),
    {
        proof {
            lemma_in_order();
            reveal_strlit("outcome");
        }
        let mut e = Exposition::new();
        e.counter_pair(
            "rayd_node_index_status_lookups_total",
            "WatchNodes-driven NodeIndex lookups by outcome (hit / miss).",
            "outcome",
            ("hit", self.status_hits),
            ("miss", self.status_misses),
        );
        e.gauge(
            "rayd_raylet_directory_entries",
            "Number of (object_id → node_ids) entries in the directory.",
            self.directory_entries,
        );
        e.counter(
            "rayd_raylet_get_object_locations_total",
            "Cumulative count of GetObjectLocations RPCs accepted.",
            self.get_object_locations_total,
        );
        e.counter(
            "rayd_raylet_pull_total",
            "Cumulative count of Pull RPCs accepted.",
            self.pull_total,
        );
        e.counter(
            "rayd_raylet_push_total",
            "Cumulative count of Push RPCs accepted.",
            self.push_total,
        );
        e.counter(
            "rayd_raylet_register_object_total",
            "Cumulative count of RegisterObject RPCs accepted.",
            self.register_object_total,
        );
        e.counter(
            "rayd_raylet_spill_restore_total",
            "Successful spill-backend restores triggered by a Pull miss.",
            self.spill_restore_total,
        );
        e.text()
    }
}

/// Every metric is shown under its own name, with its own help text and value.
pub proof fn law_every_metric_is_shown(m: Metrics)
    ensures
        prom::shows_part(
            m.shown(),
            "rayd_node_index_status_lookups_total"@,
            prom::pair(
                "WatchNodes-driven NodeIndex lookups by outcome (hit / miss)."@,
                "outcome"@,
                ("hit"@, m.status_hits as int),
                ("miss"@, m.status_misses as int),
            ),
        ),
        prom::shows_part(
            m.shown(),
            "rayd_raylet_directory_entries"@,
            prom::plain(
                true,
                "Number of (object_id → node_ids) entries in the directory."@,
                m.directory_entries as int,
            ),
        ),
        prom::shows_part(
            m.shown(),
            "rayd_raylet_get_object_locations_total"@,
            prom::plain(
                false,
                "Cumulative count of GetObjectLocations RPCs accepted."@,
                m.get_object_locations_total as int,
            ),
        ),
        prom::shows_part(
            m.shown(),
            "rayd_raylet_pull_total"@,
            prom::plain(
                false,
                "Cumulative count of Pull RPCs accepted."@,
                m.pull_total as int,
            ),
        ),
        prom::shows_part(
            m.shown(),
            "rayd_raylet_push_total"@,
            prom::plain(
                false,
                "Cumulative count of Push RPCs accepted."@,
                m.push_total as int,
            ),
        ),
        prom::shows_part(
            m.shown(),
            "rayd_raylet_register_object_total"@,
            prom::plain(
                false,
                "Cumulative count of RegisterObject RPCs accepted."@,
                m.register_object_total as int,
            ),
        ),
        prom::shows_part(
            m.shown(),
            "rayd_raylet_spill_restore_total"@,
            prom::plain(
                false,
                "Successful spill-backend restores triggered by a Pull miss."@,
                m.spill_restore_total as int,
            ),
        ),
{
    let t0 = Seq::<char>::empty();
    let m1 = prom::pair(
        "WatchNodes-driven NodeIndex lookups by outcome (hit / miss)."@,
        "outcome"@,
        ("hit"@, m.status_hits as int),
        ("miss"@, m.status_misses as int),
    );
    let p1 = prom::part("rayd_node_index_status_lookups_total"@, m1);
    let t1 = t0 + p1;
    prom::lemma_shows_last(t0, "rayd_node_index_status_lookups_total"@, m1);
    let m2 = prom::plain(
        true,
        "Number of (object_id → node_ids) entries in the directory."@,
        m.directory_entries as int,
    );
    let p2 = prom::part("rayd_raylet_directory_entries"@, m2);
    let t2 = t1 + p2;
    prom::lemma_shows_last(t1, "rayd_raylet_directory_entries"@, m2);
    prom::lemma_shows_on(t1, p2, "rayd_node_index_status_lookups_total"@, m1);
    let m3 = prom::plain(
        false,
        "Cumulative count of GetObjectLocations RPCs accepted."@,
        m.get_object_locations_total as int,
    );
    let p3 = prom::part("rayd_raylet_get_object_locations_total"@, m3);
    let t3 = t2 + p3;
    prom::lemma_shows_last(t2, "rayd_raylet_get_object_locations_total"@, m3);
    prom::lemma_shows_on(t2, p3, "rayd_node_index_status_lookups_total"@, m1);
    prom::lemma_shows_on(t2, p3, "rayd_raylet_directory_entries"@, m2);
    let m4 = prom::plain(
        false,
        "Cumulative count of Pull RPCs accepted."@,
        m.pull_total as int,
    );
    let p4 = prom::part("rayd_raylet_pull_total"@, m4);
    let t4 = t3 + p4;
    prom::lemma_shows_last(t3, "rayd_raylet_pull_total"@, m4);
    prom::lemma_shows_on(t3, p4, "rayd_node_index_status_lookups_total"@, m1);
    prom::lemma_shows_on(t3, p4, "rayd_raylet_directory_entries"@, m2);
    prom::lemma_shows_on(t3, p4, "rayd_raylet_get_object_locations_total"@, m3);
    let m5 = prom::plain(
        false,
        "Cumulative count of Push RPCs accepted."@,
        m.push_total as int,
    );
    let p5 = prom::part("rayd_raylet_push_total"@, m5);
    let t5 = t4 + p5;
    prom::lemma_shows_last(t4, "rayd_raylet_push_total"@, m5);
    prom::lemma_shows_on(t4, p5, "rayd_node_index_status_lookups_total"@, m1);
    prom::lemma_shows_on(t4, p5, "rayd_raylet_directory_entries"@, m2);
    prom::lemma_shows_on(t4, p5, "rayd_raylet_get_object_locations_total"@, m3);
    prom::lemma_shows_on(t4, p5, "rayd_raylet_pull_total"@, m4);
    let m6 = prom::plain(
        false,
        "Cumulative count of RegisterObject RPCs accepted."@,
        m.register_object_total as int,
    );
    let p6 = prom::part("rayd_raylet_register_object_total"@, m6);
    let t6 = t5 + p6;
    prom::lemma_shows_last(t5, "rayd_raylet_register_object_total"@, m6);
    prom::lemma_shows_on(t5, p6, "rayd_node_index_status_lookups_total"@, m1);
    prom::lemma_shows_on(t5, p6, "rayd_raylet_directory_entries"@, m2);
    prom::lemma_shows_on(t5, p6, "rayd_raylet_get_object_locations_total"@, m3);
    prom::lemma_shows_on(t5, p6, "rayd_raylet_pull_total"@, m4);
    prom::lemma_shows_on(t5, p6, "rayd_raylet_push_total"@, m5);
    let m7 = prom::plain(
        false,
        "Successful spill-backend restores triggered by a Pull miss."@,
        m.spill_restore_total as int,
    );
    let p7 = prom::part("rayd_raylet_spill_restore_total"@, m7);
    let t7 = t6 + p7;
    prom::lemma_shows_last(t6, "rayd_raylet_spill_restore_total"@, m7);
    prom::lemma_shows_on(t6, p7, "rayd_node_index_status_lookups_total"@, m1);
    prom::lemma_shows_on(t6, p7, "rayd_raylet_directory_entries"@, m2);
    prom::lemma_shows_on(t6, p7, "rayd_raylet_get_object_locations_total"@, m3);
    prom::lemma_shows_on(t6, p7, "rayd_raylet_pull_total"@, m4);
    prom::lemma_shows_on(t6, p7, "rayd_raylet_push_total"@, m5);
    prom::lemma_shows_on(t6, p7, "rayd_raylet_register_object_total"@, m6);
}

} // verus!
