//! The metrics pump's bookkeeping: the label sets the `jobs` counter family
//! is keyed by, and the seeding that accounts for containers already present
//! when the pump starts.
//!
//! The pump registers the family, seeds it from the current container
//! counts, then increments one labelled counter per engine event. Events
//! between the probe and the stream's start are lost; the seeding makes no
//! attempt to bridge that gap.

use vstd::prelude::*;
use vstd::string::StringExecFns;

verus! {

/// The label set of one `jobs` counter: the namespace, the event action that
/// was counted, and the event's exit code when it carried one.
pub struct MetricLabels {
    /// The configured namespace.
    pub namespace: String,
    /// The counted action (`create`, `start`, or an engine event's action).
    pub action: Option<String>,
    /// The exit code the event reported, when present.
    pub status: Option<String>,
}

/// The name of the counter family.
pub fn jobs_metric_name() -> (r: &'static str)
    ensures
        r@ == "jobs"@,
{
    "jobs"
}

/// The help text of the counter family.
pub fn jobs_metric_help() -> (r: &'static str)
    ensures
        r@ == "Number of jobs"@,
{
    "Number of jobs"
}

/// The event attribute that carries a container's exit code.
pub fn exit_code_key() -> (r: &'static str)
    ensures
        r@ == "exitCode"@,
{
    "exitCode"
}

/// The labels seeded for containers that were already created when the pump
/// started: action `create`, no status.
pub fn seed_create_labels(namespace: String) -> (l: MetricLabels)
    ensures
        l.namespace == namespace,
        l.action matches Some(a) && a@ == "create"@,
        l.status is None,
{
    MetricLabels { namespace, action: Some(String::from_str("create")), status: None }
}

/// The labels seeded for containers that were already started when the pump
/// started: action `start`, no status.
pub fn seed_start_labels(namespace: String) -> (l: MetricLabels)
    ensures
        l.namespace == namespace,
        l.action matches Some(a) && a@ == "start"@,
        l.status is None,
{
    MetricLabels { namespace, action: Some(String::from_str("start")), status: None }
}

/// The labels an engine event increments: the event's action as reported,
/// and its exit code as the status when it carried one.
pub fn event_labels(namespace: String, action: Option<String>, exit_code: Option<String>) -> (l:
    MetricLabels)
    ensures
        l.namespace == namespace,
        l.action == action,
        l.status == exit_code,
{
    MetricLabels { namespace, action, status: exit_code }
}

/// How much the seeding increments the two seeded counters: `create` by the
/// active and pending containers together, `start` by the active ones alone.
/// Absent only when the sum does not fit the counter's width.
pub fn seed_increments(active: u64, pending: u64) -> (r: Option<(u64, u64)>)
    ensures
        active + pending <= u64::MAX ==> (r matches Some(p) && p.0 == active + pending && p.1
            == active),
        active + pending > u64::MAX ==> r is None,
{
    if pending <= u64::MAX - active {
        Some((active + pending, active))
    } else {
        None
    }
}

} // verus!
