//! The background watcher's decisions: its cadence, and what one refresh of a known
//! instance records.
use vstd::prelude::*;

use crate::lifecycle::has_mcp_target;
use crate::state::{
    crashed, spec_modify, with_status, InstanceState, InstanceView, StateStore, StateView,
};
use crate::text::str_eq;

verus! {

broadcast use vstd::string::group_string_axioms;

/// Seconds between two refreshes.
pub const DEFAULT_INTERVAL_SECS: u64 = 5;

/// Every this many refreshes, configured targets are discovered again.
pub const DISCOVER_INTERVAL_CYCLES: u64 = 6;

/// Every this many refreshes, stale instances are dropped.
pub const PURGE_INTERVAL_CYCLES: u64 = 60;

/// Instances last seen longer ago than this many seconds (one hour) are dropped.
pub const STALE_SECS: u64 = 3600;

/// The tick interval: the one asked for, at least one second.
pub fn tick_interval(interval_secs: u64) -> (r: u64)
    ensures
        r == (if interval_secs < 1 {
            1
        } else {
            interval_secs
        }),
{
    if interval_secs < 1 {
        1
    } else {
        interval_secs
    }
}

/// What the watcher does after its refresh number `cycles` (counted from one): the next
/// count, whether to discover and whether to purge.
pub fn cycle_after(cycles: u64) -> (r: (u64, bool, bool))
    ensures
        r.0 == (if cycles == u64::MAX {
            u64::MAX
        } else {
            (cycles + 1) as u64
        }),
        r.1 == (r.0 % DISCOVER_INTERVAL_CYCLES == 0),
        r.2 == (r.0 % PURGE_INTERVAL_CYCLES == 0),
{
    let next = cycles.saturating_add(1);
    (next, next % DISCOVER_INTERVAL_CYCLES == 0, next % PURGE_INTERVAL_CYCLES == 0)
}

/// Whether a refresh probes the instance's target (else it only looks at its process).
pub fn refresh_probes_target(instance: &InstanceState) -> (r: bool)
    ensures
        r == has_mcp_target(instance@),
{
    crate::lifecycle::instance_has_target(instance)
}

/// The state after one refresh of instance `i`: `answered` is whether its target answered
/// (looked at only when it has one), `pid_alive` whether its recorded process is alive
/// (looked at only when it has a pid). An instance whose process died while it was online
/// or starting, and whose target does not answer, is counted as crashed.
pub open spec fn spec_refresh(
    sv: StateView,
    i: InstanceView,
    answered: bool,
    pid_alive: bool,
    now: nat,
) -> StateView {
    if !has_mcp_target(i) {
        if i.pid is Some && !pid_alive {
            spec_modify(sv, i.key, with_status("offline"@, None, now))
        } else {
            sv
        }
    } else if answered {
        spec_modify(sv, i.key, with_status("online"@, i.pid, now))
    } else if i.pid is Some {
        if !pid_alive && (i.status == "online"@ || i.status == "starting"@) {
            spec_modify(sv, i.key, crashed(now))
        } else {
            spec_modify(sv, i.key, with_status("offline"@, i.pid, now))
        }
    } else {
        spec_modify(sv, i.key, with_status("offline"@, None, now))
    }
}

/// Records, at time `now`, one refresh of `instance`.
pub fn refresh_instance_at(
    state: &mut StateStore,
    instance: &InstanceState,
    answered: bool,
    pid_alive: bool,
    now: u64,
)
    requires
        old(state).wf(),
    ensures
        old(state).spec_unsaved() ==> final(state).spec_unsaved(),
        final(state).view() != old(state).view() ==> final(state).spec_unsaved(),
        final(state).wf(),
        final(state).spec_path() == old(state).spec_path(),
        final(state).view() == spec_refresh(old(state).view(), instance@, answered, pid_alive, now as nat),
{
    let key = instance.key.as_str();
    if !crate::lifecycle::instance_has_target(instance) {
        if instance.pid.is_some() && !pid_alive {
            state.update_instance_status_at(key, "offline", None, now);
        }
        return;
    }
    if answered {
        state.update_instance_status_at(key, "online", instance.pid, now);
        return;
    }
    match instance.pid {
        Some(pid) => {
            let live = str_eq(instance.status.as_str(), "online") || str_eq(
                instance.status.as_str(),
                "starting",
            );
            if !pid_alive && live {
                state.mark_crashed_at(key, now);
            } else {
                state.update_instance_status_at(key, "offline", Some(pid), now);
            }
        },
        None => {
            state.update_instance_status_at(key, "offline", None, now);
        },
    }
}

} // verus!
