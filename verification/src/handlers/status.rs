//! `/status`: instance count, port use and uptime.

use vstd::prelude::*;
use crate::text::{decimal, push_decimal, push_str, string_from_chars};

verus! {

/// `"{h}h {m}m"` when at least an hour passed, else `"{m}m"`.
pub open spec fn uptime_text(seconds: nat) -> Seq<char> {
    let hours = seconds / 3600;
    let minutes = (seconds % 3600) / 60;
    if hours > 0 {
        decimal(hours) + "h "@ + decimal(minutes) + "m"@
    } else {
        decimal(minutes) + "m"@
    }
}

/// Uptime in hours and minutes.
pub fn format_uptime(seconds: u64) -> (r: String)
    ensures
        r@ == uptime_text(seconds as nat),
{
    let hours = seconds / 3600;
    let minutes = (seconds % 3600) / 60;
    let mut v: Vec<char> = Vec::new();
    if hours > 0 {
        push_decimal(&mut v, hours);
        push_str(&mut v, "h ");
    }
    push_decimal(&mut v, minutes);
    push_str(&mut v, "m");
    string_from_chars(&v)
}

/// The `/status` answer.
pub open spec fn status_text(total: nat, used: nat, port_total: nat, uptime: nat) -> Seq<char> {
    "Orchestrator Status\n\nActive Instances: "@ + decimal(total) + "\n\nPort Pool: "@ + decimal(used) + "/"@
        + decimal(port_total) + " used\nUptime: "@ + uptime_text(uptime) + "\nHealth: Healthy\n"@
}

/// The orchestrator's status report.
pub fn format_status_output(total_count: usize, port_used: usize, port_total: usize, uptime_seconds: u64) -> (r: String)
    ensures
        r@ == status_text(total_count as nat, port_used as nat, port_total as nat, uptime_seconds as nat),
{
    let mut v: Vec<char> = Vec::new();
    push_str(&mut v, "Orchestrator Status\n\nActive Instances: ");
    push_decimal(&mut v, total_count as u64);
    push_str(&mut v, "\n\nPort Pool: ");
    push_decimal(&mut v, port_used as u64);
    push_str(&mut v, "/");
    push_decimal(&mut v, port_total as u64);
    push_str(&mut v, " used\nUptime: ");
    let u = format_uptime(uptime_seconds);
    push_str(&mut v, u.as_str());
    push_str(&mut v, "\nHealth: Healthy\n");
    string_from_chars(&v)
}

/// Ports in use: the pool size less the free ports.
pub fn ports_used(port_total: usize, available: usize) -> (r: usize)
    requires
        available <= port_total,
    ensures
        r == port_total - available,
{
    port_total - available
}

} // verus!
