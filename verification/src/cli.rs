//! Decisions of the command line.

use vstd::prelude::*;

verus! {

/// Bytes in a mebibyte.
pub const MEBIBYTE: u64 = 1_048_576;

/// What `rayd start` starts.
#[derive(Debug, Clone, Copy, PartialEq, Eq, Structural)]
pub enum StartMode {
    /// A new cluster.
    Head,
    /// A node of a cluster that is there.
    Worker,
}

/// Decides what to start: a new cluster where that is asked for, else a node of the cluster
/// whose address is given.
pub fn start_mode(head: bool, has_address: bool) -> (r: Result<StartMode, String>)
    ensures
        match r {
            Ok(StartMode::Head) => head,
            Ok(StartMode::Worker) => !head && has_address,
            Err(m) => !head && !has_address && m@
                == "rayd start: pass either --head (start a new cluster) or --address=<gcs-addr> (attach to an existing head)"@,
        },
{
    if head {
        Ok(StartMode::Head)
    } else if has_address {
        Ok(StartMode::Worker)
    } else {
        Err(
            "rayd start: pass either --head (start a new cluster) or --address=<gcs-addr> (attach to an existing head)".to_owned(),
        )
    }
}

/// The bytes of a capacity in mebibytes, where a number of 64 bits can hold them.
pub fn capacity_bytes(mebibytes: u64) -> (r: Option<u64>)
    ensures
        match r {
            Some(n) => n == mebibytes * MEBIBYTE,
            None => mebibytes * MEBIBYTE > u64::MAX,
        },
{
    if mebibytes > u64::MAX / MEBIBYTE {
        None
    } else {
        Some(mebibytes * MEBIBYTE)
    }
}

/// The host under which a node is reached: what is given, else the host's name, else this
/// machine.
pub fn advertise_host(given: Option<String>, hostname: Option<String>) -> (r: String)
    ensures
        r@ == (match given {
            Some(h) => h@,
            None => match hostname {
                Some(h) => h@,
                None => "127.0.0.1"@,
            },
        }),
{
    match given {
        Some(h) => h,
        None => match hostname {
            Some(h) => h,
            None => "127.0.0.1".to_owned(),
        },
    }
}

/// Capacities are given in MiB.
pub proof fn law_mebibyte()
    ensures
        MEBIBYTE == 1024 * 1024,
{
}

} // verus!
