//! The metrics of the driver.

use crate::driver::dispatcher::Ingested;
use crate::kernel::core_worker::CoreWorker;
use crate::util::prom;
use crate::util::prom::{clamp, count, Exposition, MetricsError};
use vstd::prelude::*;

verus! {

/// The metrics of the driver.
#[derive(Debug, Clone, Copy, PartialEq, Eq, Structural)]
pub struct DriverMetrics {
    /// Tasks submitted.
    pub tasks_submitted_total: u64,
    /// Results that are values.
    pub tasks_completed_total: u64,
    /// Results that are errors.
    pub tasks_failed_total: u64,
    /// Values put.
    pub puts_total: u64,
    /// Values asked for.
    pub gets_total: u64,
}

/// Every metric is in order.
proof fn lemma_in_order()
    ensures
        prom::in_order(
            "rayd_driver_gets_total"@,
            "Cumulative count of rayd.get / rayd.get_settled calls."@,
            Seq::empty(),
        ),
        prom::in_order(
            "rayd_driver_puts_total"@,
            "Cumulative count of rayd.put calls."@,
            Seq::empty(),
        ),
        prom::in_order(
            "rayd_driver_refs_alive"@,
            "Number of distinct ObjectIds the local RefCounter currently tracks."@,
            Seq::empty(),
        ),
        prom::in_order(
            "rayd_driver_tasks_completed_total"@,
            "Cumulative count of dispatcher completion frames for tasks that returned a value."@,
            Seq::empty(),
        ),
        prom::in_order(
            "rayd_driver_tasks_failed_total"@,
            "Cumulative count of dispatcher completion frames for tasks that returned an error."@,
            Seq::empty(),
        ),
        prom::in_order(
            "rayd_driver_tasks_submitted_total"@,
            "Cumulative count of submit_task calls accepted."@,
            Seq::empty(),
        ),
{
    reveal_with_fuel(prom::goes_on_from, 50);
    reveal_strlit("rayd_driver_gets_total");
    reveal_strlit("Cumulative count of rayd.get / rayd.get_settled calls.");
    reveal_strlit("rayd_driver_puts_total");
    reveal_strlit("Cumulative count of rayd.put calls.");
    reveal_strlit("rayd_driver_refs_alive");
    reveal_strlit("Number of distinct ObjectIds the local RefCounter currently tracks.");
    reveal_strlit("rayd_driver_tasks_completed_total");
    reveal_strlit("Cumulative count of dispatcher completion frames for tasks that returned a value.");
    reveal_strlit("rayd_driver_tasks_failed_total");
    reveal_strlit("Cumulative count of dispatcher completion frames for tasks that returned an error.");
    reveal_strlit("rayd_driver_tasks_submitted_total");
    reveal_strlit("Cumulative count of submit_task calls accepted.");
}

impl DriverMetrics {
    /// The metrics of a driver that has done nothing.
    pub fn new() -> (r: Self)
        ensures
            r == (DriverMetrics {
                tasks_submitted_total: 0,
                tasks_completed_total: 0,
                tasks_failed_total: 0,
                puts_total: 0,
                gets_total: 0,
            }),
    {
        DriverMetrics {
            tasks_submitted_total: 0,
            tasks_completed_total: 0,
            tasks_failed_total: 0,
            puts_total: 0,
            gets_total: 0,
        }
    }

    /// A task was submitted.
    pub fn task_submitted(&mut self)
        ensures
            *final(self) == (DriverMetrics {
                tasks_submitted_total: prom::counted(old(self).tasks_submitted_total, 1),
                ..*old(self)
            }),
    {
        self.tasks_submitted_total = count(self.tasks_submitted_total, 1);
    }

    /// A value was put.
    pub fn value_put(&mut self)
        ensures
            *final(self) == (DriverMetrics {
                puts_total: prom::counted(old(self).puts_total, 1),
                ..*old(self)
            }),
    {
        self.puts_total = count(self.puts_total, 1);
    }

    /// A value was asked for.
    pub fn value_asked_for(&mut self)
        ensures
            *final(self) == (DriverMetrics {
                gets_total: prom::counted(old(self).gets_total, 1),
                ..*old(self)
            }),
    {
        self.gets_total = count(self.gets_total, 1);
    }

    /// A worker's report was taken in.
    pub fn ingested(&mut self, report: &Ingested)
        ensures
            *final(self) == (DriverMetrics {
                tasks_completed_total: prom::counted(
                    old(self).tasks_completed_total,
                    report.completed as u64,
                ),
                tasks_failed_total: prom::counted(
                    old(self).tasks_failed_total,
                    report.failed as u64,
                ),
                ..*old(self)
            }),
    {
        self.tasks_completed_total = count(self.tasks_completed_total, report.completed as u64);
        self.tasks_failed_total = count(self.tasks_failed_total, report.failed as u64);
    }

    /// The text that is shown: the metrics in the order of their names.
    pub open spec fn shown(self, refs_alive: nat) -> Seq<char> {
        Seq::<char>::empty() + prom::part(
            "rayd_driver_gets_total"@,
            prom::plain(
                false,
                "Cumulative count of rayd.get / rayd.get_settled calls."@,
                self.gets_total as int,
            ),
        ) + prom::part(
            "rayd_driver_puts_total"@,
            prom::plain(
                false,
                "Cumulative count of rayd.put calls."@,
                self.puts_total as int,
            ),
        ) + prom::part(
            "rayd_driver_refs_alive"@,
            prom::plain(
                true,
                "Number of distinct ObjectIds the local RefCounter currently tracks."@,
                prom::clamped(refs_alive) as int,
            ),
        ) + prom::part(
            "rayd_driver_tasks_completed_total"@,
            prom::plain(
                false,
                "Cumulative count of dispatcher completion frames for tasks that returned a value."@,
                self.tasks_completed_total as int,
            ),
        ) + prom::part(
            "rayd_driver_tasks_failed_total"@,
            prom::plain(
                false,
                "Cumulative count of dispatcher completion frames for tasks that returned an error."@,
                self.tasks_failed_total as int,
            ),
        ) + prom::part(
            "rayd_driver_tasks_submitted_total"@,
            prom::plain(
                false,
                "Cumulative count of submit_task calls accepted."@,
                self.tasks_submitted_total as int,
            ),
        )
    }

    /// The metrics as a text, with the number of objects that the worker tracks.
    pub fn encode_text(&self, worker: &CoreWorker) -> (r: Result<String, MetricsError>)
        requires
            worker.wf(),
        ensures
            r matches Ok(t) && t@ == self.shown(worker@.refs.dom().len()),
    {
        proof {
            lemma_in_order();
        }
        let mut e = Exposition::new();
        e.counter(
            "rayd_driver_gets_total",
            "Cumulative count of rayd.get / rayd.get_settled calls.",
            self.gets_total,
        );
        e.counter(
            "rayd_driver_puts_total",
            "Cumulative count of rayd.put calls.",
            self.puts_total,
        );
        e.gauge(
            "rayd_driver_refs_alive",
            "Number of distinct ObjectIds the local RefCounter currently tracks.",
            clamp(worker.refs().len() as u64),
        );
        e.counter(
            "rayd_driver_tasks_completed_total",
            "Cumulative count of dispatcher completion frames for tasks that returned a value.",
            self.tasks_completed_total,
        );
        e.counter(
            "rayd_driver_tasks_failed_total",
            "Cumulative count of dispatcher completion frames for tasks that returned an error.",
            self.tasks_failed_total,
        );
        e.counter(
            "rayd_driver_tasks_submitted_total",
            "Cumulative count of submit_task calls accepted.",
            self.tasks_submitted_total,
        );
        e.text()
    }
}

/// Every metric is shown under its own name, with its own help text and value.
pub proof fn law_every_metric_is_shown(m: DriverMetrics, refs_alive: nat)
    ensures
        prom::shows_part(
            m.shown(refs_alive),
            "rayd_driver_gets_total"@,
            prom::plain(
                false,
                "Cumulative count of rayd.get / rayd.get_settled calls."@,
                m.gets_total as int,
            ),
        ),
        prom::shows_part(
            m.shown(refs_alive),
            "rayd_driver_puts_total"@,
            prom::plain(
                false,
                "Cumulative count of rayd.put calls."@,
                m.puts_total as int,
            ),
        ),
        prom::shows_part(
            m.shown(refs_alive),
            "rayd_driver_refs_alive"@,
            prom::plain(
                true,
                "Number of distinct ObjectIds the local RefCounter currently tracks."@,
                prom::clamped(refs_alive) as int,
            ),
        ),
        prom::shows_part(
            m.shown(refs_alive),
            "rayd_driver_tasks_completed_total"@,
            prom::plain(
                false,
                "Cumulative count of dispatcher completion frames for tasks that returned a value."@,
                m.tasks_completed_total as int,
            ),
        ),
        prom::shows_part(
            m.shown(refs_alive),
            "rayd_driver_tasks_failed_total"@,
            prom::plain(
                false,
                "Cumulative count of dispatcher completion frames for tasks that returned an error."@,
                m.tasks_failed_total as int,
            ),
        ),
        prom::shows_part(
            m.shown(refs_alive),
            "rayd_driver_tasks_submitted_total"@,
            prom::plain(
                false,
                "Cumulative count of submit_task calls accepted."@,
                m.tasks_submitted_total as int,
            ),
        ),
{
    let t0 = Seq::<char>::empty();
    let m1 = prom::plain(
        false,
        "Cumulative count of rayd.get / rayd.get_settled calls."@,
        m.gets_total as int,
    );
    let p1 = prom::part("rayd_driver_gets_total"@, m1);
    let t1 = t0 + p1;
    prom::lemma_shows_last(t0, "rayd_driver_gets_total"@, m1);
    let m2 = prom::plain(
        false,
        "Cumulative count of rayd.put calls."@,
        m.puts_total as int,
    );
    let p2 = prom::part("rayd_driver_puts_total"@, m2);
    let t2 = t1 + p2;
    prom::lemma_shows_last(t1, "rayd_driver_puts_total"@, m2);
    prom::lemma_shows_on(t1, p2, "rayd_driver_gets_total"@, m1);
    let m3 = prom::plain(
        true,
        "Number of distinct ObjectIds the local RefCounter currently tracks."@,
        prom::clamped(refs_alive) as int,
    );
    let p3 = prom::part("rayd_driver_refs_alive"@, m3);
    let t3 = t2 + p3;
    prom::lemma_shows_last(t2, "rayd_driver_refs_alive"@, m3);
    prom::lemma_shows_on(t2, p3, "rayd_driver_gets_total"@, m1);
    prom::lemma_shows_on(t2, p3, "rayd_driver_puts_total"@, m2);
    let m4 = prom::plain(
        false,
        "Cumulative count of dispatcher completion frames for tasks that returned a value."@,
        m.tasks_completed_total as int,
    );
    let p4 = prom::part("rayd_driver_tasks_completed_total"@, m4);
    let t4 = t3 + p4;
    prom::lemma_shows_last(t3, "rayd_driver_tasks_completed_total"@, m4);
    prom::lemma_shows_on(t3, p4, "rayd_driver_gets_total"@, m1);
    prom::lemma_shows_on(t3, p4, "rayd_driver_puts_total"@, m2);
    prom::lemma_shows_on(t3, p4, "rayd_driver_refs_alive"@, m3);
    let m5 = prom::plain(
        false,
        "Cumulative count of dispatcher completion frames for tasks that returned an error."@,
        m.tasks_failed_total as int,
    );
    let p5 = prom::part("rayd_driver_tasks_failed_total"@, m5);
    let t5 = t4 + p5;
    prom::lemma_shows_last(t4, "rayd_driver_tasks_failed_total"@, m5);
    prom::lemma_shows_on(t4, p5, "rayd_driver_gets_total"@, m1);
    prom::lemma_shows_on(t4, p5, "rayd_driver_puts_total"@, m2);
    prom::lemma_shows_on(t4, p5, "rayd_driver_refs_alive"@, m3);
    prom::lemma_shows_on(t4, p5, "rayd_driver_tasks_completed_total"@, m4);
    let m6 = prom::plain(
        false,
        "Cumulative count of submit_task calls accepted."@,
        m.tasks_submitted_total as int,
    );
    let p6 = prom::part("rayd_driver_tasks_submitted_total"@, m6);
    let t6 = t5 + p6;
    prom::lemma_shows_last(t5, "rayd_driver_tasks_submitted_total"@, m6);
    prom::lemma_shows_on(t5, p6, "rayd_driver_gets_total"@, m1);
    prom::lemma_shows_on(t5, p6, "rayd_driver_puts_total"@, m2);
    prom::lemma_shows_on(t5, p6, "rayd_driver_refs_alive"@, m3);
    prom::lemma_shows_on(t5, p6, "rayd_driver_tasks_completed_total"@, m4);
    prom::lemma_shows_on(t5, p6, "rayd_driver_tasks_failed_total"@, m5);
}

} // verus!
