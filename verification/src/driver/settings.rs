//! Settings of the driver, as the environment gives them.

use crate::driver::dispatcher::DEFAULT_WORKERS;
use crate::gcs::nodes::Resources;
use crate::kernel::core_worker::DEFAULT_SPILL_BUDGET_BYTES;
use crate::util::text;
use crate::util::text::{concat3, parse_u64, with_number};
use vstd::prelude::*;

verus! {

/// Time between two heartbeats, unless set otherwise.
pub const DEFAULT_HEARTBEAT_INTERVAL_MS: u64 = 2_000;

/// The number of a setting, where it is positive and not above `most`.
pub open spec fn positive_setting(raw: Option<&str>, most: nat) -> Option<nat> {
    match raw {
        None => None,
        Some(s) => match text::number_of(s@) {
            Some(n) => if 0 < n && n <= most {
                Some(n)
            } else {
                None
            },
            None => None,
        },
    }
}

fn positive(raw: Option<&str>) -> (r: Option<u64>)
    ensures
        match r {
            Some(n) => positive_setting(raw, u64::MAX as nat) == Some(n as nat),
            None => positive_setting(raw, u64::MAX as nat) is None,
        },
{
    match raw {
        None => None,
        Some(s) => match parse_u64(s) {
            Some(n) => if n > 0 {
                Some(n)
            } else {
                None
            },
            None => None,
        },
    }
}

/// The number of workers: what is set, where it is a positive number.
pub fn parse_num_workers(raw: Option<&str>) -> (n: usize)
    ensures
        n == (match positive_setting(raw, usize::MAX as nat) {
            Some(n) => n,
            None => 4nat,
        }),
{
    match positive(raw) {
        Some(n) => if n <= usize::MAX as u64 {
            n as usize
        } else {
            DEFAULT_WORKERS
        },
        None => DEFAULT_WORKERS,
    }
}

/// The bytes of shared memory that the driver may use: what is set, where it is a positive
/// number.
pub fn parse_spill_budget(raw: Option<&str>) -> (n: u64)
    ensures
        n == (match positive_setting(raw, u64::MAX as nat) {
            Some(n) => n,
            None => DEFAULT_SPILL_BUDGET_BYTES as nat,
        }),
{
    match positive(raw) {
        Some(n) => n,
        None => DEFAULT_SPILL_BUDGET_BYTES,
    }
}

/// The time between two heartbeats: what is set, where it is a positive number.
pub fn heartbeat_interval_ms(raw: Option<&str>) -> (n: u64)
    ensures
        n == (match positive_setting(raw, u64::MAX as nat) {
            Some(n) => n,
            None => 2_000nat,
        }),
{
    match positive(raw) {
        Some(n) => n,
        None => DEFAULT_HEARTBEAT_INTERVAL_MS,
    }
}

/// What a node with so many processors contributes.
pub fn default_resources(cpus: usize) -> (r: Resources)
    ensures
        r == (Resources {
            num_cpus: if cpus <= u32::MAX {
                cpus as u32
            } else {
                1
            },
            num_gpus: 0,
            memory_bytes: 0,
        }),
{
    Resources {
        num_cpus: if cpus as u64 <= u32::MAX as u64 {
            cpus as u32
        } else {
            1
        },
        num_gpus: 0,
        memory_bytes: 0,
    }
}

/// Where the shared-memory socket is.
#[derive(Debug)]
pub enum PlasmaSocket {
    /// Of a server that runs already.
    At(String),
    /// Of a server that is to be started.
    StartServer,
}

/// Decides where the shared-memory socket is: what is set, where it exists.
pub fn resolve_plasma_socket(set: Option<String>, exists: bool) -> (r: Result<PlasmaSocket, String>)
    ensures
        match set {
            None => r == Ok::<PlasmaSocket, String>(PlasmaSocket::StartServer),
            Some(path) => if exists {
                r == Ok::<PlasmaSocket, String>(PlasmaSocket::At(path))
            } else {
                r matches Err(m) && m@ == "RAYD_PLASMA_SOCKET points at "@ + path@
                    + " which doesn't exist; start a plasma server first (`rayd plasma-server <path>`)"@
            },
        },
{
    match set {
        None => Ok(PlasmaSocket::StartServer),
        Some(path) => if exists {
            Ok(PlasmaSocket::At(path))
        } else {
            Err(
                concat3(
                    "RAYD_PLASMA_SOCKET points at ",
                    path.as_str(),
                    " which doesn't exist; start a plasma server first (`rayd plasma-server <path>`)",
                ),
            )
        },
    }
}

/// The message about workers that did not come.
pub fn workers_missing(expected: usize) -> (r: String)
    ensures
        r@ == "rayd dispatcher: only some of "@ + text::decimal_text(expected as nat)
            + " worker subprocesses connected back within 5s"@,
{
    with_number(
        "rayd dispatcher: only some of ",
        expected as u64,
        " worker subprocesses connected back within 5s",
    )
}

/// A setting counts exactly where it is a positive number within its bounds, and then as that
/// number.
pub proof fn law_settings_count(s: &str, most: nat)
    ensures
        positive_setting(None, most) is None,
        positive_setting(Some(s), most) is Some <==> (text::number_of(s@) matches Some(n) && 0 < n
            <= most),
        positive_setting(Some(s), most) matches Some(n) ==> text::number_of(s@) == Some(n),
{
}

/// Four workers and a heartbeat every two seconds, unless set otherwise.
pub proof fn law_defaults()
    ensures
        DEFAULT_WORKERS == 4,
        DEFAULT_HEARTBEAT_INTERVAL_MS == 2_000,
{
}

} // verus!
