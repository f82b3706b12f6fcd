//! Job execution rules: what a queued job asks the backend to do, and how
//! its completion is recorded.

use vstd::prelude::*;

use crate::config::settings::WorkersConfig;
use crate::models::admin::Admin;
use crate::models::admin::status;
use crate::util::net::{IpNet, ip_network_to_string};
use crate::models::device::net_text;
use crate::util::text::{push_str, str_eq, string_of};
use crate::web::auth::spec_valid_job_actions;

verus! {

/// What the backend does for a queued job.
#[derive(Debug, Clone, Copy, PartialEq, Eq, Structural)]
pub enum JobPlan {
    /// Discover the device.
    Discover(IpNet),
    /// Discover every known device.
    DiscoverAll,
    /// Collect the forwarding table of the device.
    Macsuck(IpNet),
    /// Collect the forwarding tables of every device.
    Macwalk,
    /// Collect the ARP table of the device.
    Arpnip(IpNet),
    /// Collect the ARP tables of every device.
    Arpwalk,
    /// Query the NetBIOS name of the job's node.
    Nbtstat,
    /// Query the NetBIOS names of every node.
    Nbtwalk,
    /// Expire old records.
    Expire,
    /// Delete the device.
    Delete(IpNet),
    /// Change a port (state, name, VLAN or power).
    PortAction,
    /// An action that completes at once without doing anything.
    Placeholder,
    /// The action needs a device and the job names none.
    MissingDevice,
    /// The action is not known.
    Unknown,
}

/// The action text of a job: empty when it has none.
pub open spec fn action_text(action: Option<String>) -> Seq<char> {
    match action {
        Some(a) => a@,
        None => ""@,
    }
}

/// An action that needs a device, planned with the device when there is one.
pub open spec fn with_device(device: Option<IpNet>, plan: JobPlan) -> JobPlan {
    if device is Some {
        plan
    } else {
        JobPlan::MissingDevice
    }
}

/// The plan for a job's action and device.
pub open spec fn spec_plan_job(action: Seq<char>, device: Option<IpNet>) -> JobPlan {
    let d = match device {
        Some(ip) => ip,
        None => IpNet { addr: crate::util::net::IpAddress::V4(0), prefix: 0 },
    };
    if action == "discover"@ {
        with_device(device, JobPlan::Discover(d))
    } else if action == "discoverall"@ {
        JobPlan::DiscoverAll
    } else if action == "macsuck"@ {
        with_device(device, JobPlan::Macsuck(d))
    } else if action == "macwalk"@ {
        JobPlan::Macwalk
    } else if action == "arpnip"@ {
        with_device(device, JobPlan::Arpnip(d))
    } else if action == "arpwalk"@ {
        JobPlan::Arpwalk
    } else if action == "nbtstat"@ {
        JobPlan::Nbtstat
    } else if action == "nbtwalk"@ {
        JobPlan::Nbtwalk
    } else if action == "expire"@ {
        JobPlan::Expire
    } else if action == "delete"@ {
        with_device(device, JobPlan::Delete(d))
    } else if action == "portcontrol"@ || action == "portname"@ || action == "portvlan"@ || action
        == "power"@ {
        JobPlan::PortAction
    } else if action == "graph"@ || action == "show"@ || action == "stats"@ || action == "linter"@ {
        JobPlan::Placeholder
    } else {
        JobPlan::Unknown
    }
}

fn needs_device(device: Option<IpNet>, plan: JobPlan) -> (r: JobPlan)
    ensures
        r == with_device(device, plan),
{
    match device {
        Some(_) => plan,
        None => JobPlan::MissingDevice,
    }
}

/// Decide what a job asks for from its action and target device.
pub fn plan_job(job: &Admin) -> (r: JobPlan)
    ensures
        r == spec_plan_job(action_text(job.action), job.device),
{
    let action: &str = match &job.action {
        Some(a) => a.as_str(),
        None => "",
    };
    let device = job.device;
    let d = match device {
        Some(ip) => ip,
        None => IpNet { addr: crate::util::net::IpAddress::V4(0), prefix: 0 },
    };
    if str_eq(action, "discover") {
        needs_device(device, JobPlan::Discover(d))
    } else if str_eq(action, "discoverall") {
        JobPlan::DiscoverAll
    } else if str_eq(action, "macsuck") {
        needs_device(device, JobPlan::Macsuck(d))
    } else if str_eq(action, "macwalk") {
        JobPlan::Macwalk
    } else if str_eq(action, "arpnip") {
        needs_device(device, JobPlan::Arpnip(d))
    } else if str_eq(action, "arpwalk") {
        JobPlan::Arpwalk
    } else if str_eq(action, "nbtstat") {
        JobPlan::Nbtstat
    } else if str_eq(action, "nbtwalk") {
        JobPlan::Nbtwalk
    } else if str_eq(action, "expire") {
        JobPlan::Expire
    } else if str_eq(action, "delete") {
        needs_device(device, JobPlan::Delete(d))
    } else if str_eq(action, "portcontrol") || str_eq(action, "portname") || str_eq(
        action,
        "portvlan",
    ) || str_eq(action, "power") {
        JobPlan::PortAction
    } else if str_eq(action, "graph") || str_eq(action, "show") || str_eq(action, "stats")
        || str_eq(action, "linter") {
        JobPlan::Placeholder
    } else {
        JobPlan::Unknown
    }
}

/// The result a plan gives without any work: the placeholder's success
/// message, or the error for a missing device or an unknown action; `None`
/// for the plans that do work.
pub open spec fn spec_immediate_result(plan: JobPlan, action: Seq<char>) -> Option<
    Result<Seq<char>, Seq<char>>,
> {
    match plan {
        JobPlan::Placeholder => Some(Ok("Action '"@ + action + "' completed (placeholder)"@)),
        JobPlan::MissingDevice => Some(Err(action + " requires a device IP"@)),
        JobPlan::Unknown => Some(Err("Unknown action: "@ + action)),
        _ => None,
    }
}

/// The message of a plan that finishes at once.
pub fn immediate_result(plan: &JobPlan, action: &str) -> (r: Option<Result<String, String>>)
    ensures
        match spec_immediate_result(*plan, action@) {
            Some(Ok(m)) => r matches Some(Ok(s)) && s@ == m,
            Some(Err(m)) => r matches Some(Err(s)) && s@ == m,
            None => r is None,
        },
{
    match plan {
        JobPlan::Placeholder => {
            let mut s = string_of("Action '");
            push_str(&mut s, action);
            push_str(&mut s, "' completed (placeholder)");
            Some(Ok(s))
        },
        JobPlan::MissingDevice => {
            let mut s = string_of(action);
            push_str(&mut s, " requires a device IP");
            Some(Err(s))
        },
        JobPlan::Unknown => {
            let mut s = string_of("Unknown action: ");
            push_str(&mut s, action);
            Some(Err(s))
        },
        _ => None,
    }
}

/// The log of a job that deleted the device at `ip`.
pub fn deleted_message(ip: &IpNet) -> (r: String)
    requires
        ip.wf(),
    ensures
        r@ == "Deleted device "@ + net_text(*ip),
{
    let mut s = string_of("Deleted device ");
    let text = ip_network_to_string(ip);
    push_str(&mut s, text.as_str());
    s
}

/// Every action that the web layer accepts for queueing is one the backend
/// knows: its plan is never `Unknown`, whatever the device.
pub proof fn lemma_valid_actions_are_planned(action: Seq<char>, device: Option<IpNet>)
    requires
        spec_valid_job_actions().contains(action),
    ensures
        spec_plan_job(action, device) != JobPlan::Unknown,
{
    let i = choose|i: int| 0 <= i < spec_valid_job_actions().len() && spec_valid_job_actions()[i] == action;
    assert(spec_valid_job_actions()[i] == action);
}

/// How a job run ended: with a log message, with an error, or by running
/// past the worker's timeout.
#[derive(Debug, Clone)]
pub enum JobOutcome {
    Completed(String),
    Failed(String),
    TimedOut,
}

/// What is recorded for a finished job: its id (0 when it has none), the
/// new status and the log text.
#[derive(Debug, Clone)]
pub struct JobCompletion {
    pub job_id: i32,
    pub status: String,
    pub log: String,
}

/// How a finished job is recorded: "done" with the log of a completed run,
/// "error" with the error text of a failed one, and "error" with
/// "Job timed out" when it ran out of time.
pub fn job_completion(job: &Admin, outcome: JobOutcome) -> (r: JobCompletion)
    ensures
        r.job_id == (match job.job {
            Some(id) => id,
            None => 0i32,
        }),
        match outcome {
            JobOutcome::Completed(log) => r.status@ == status::DONE@ && r.log@ == log@,
            JobOutcome::Failed(e) => r.status@ == status::ERROR@ && r.log@ == e@,
            JobOutcome::TimedOut => r.status@ == status::ERROR@ && r.log@ == "Job timed out"@,
        },
{
    let job_id = match job.job {
        Some(id) => id,
        None => 0,
    };
    match outcome {
        JobOutcome::Completed(log) => JobCompletion { job_id, status: string_of(status::DONE), log },
        JobOutcome::Failed(e) => JobCompletion { job_id, status: string_of(status::ERROR), log: e },
        JobOutcome::TimedOut => JobCompletion {
            job_id,
            status: string_of(status::ERROR),
            log: string_of("Job timed out"),
        },
    }
}

/// What a worker got from the job queue: a job, nothing queued, or an
/// error from the queue.
#[derive(Debug)]
pub enum Dequeued {
    Job(Admin),
    Empty,
    Failed,
}

/// What a worker does next: run the job within `timeout_secs`, or sleep
/// for `sleep_secs` before asking the queue again.
#[derive(Debug)]
pub enum WorkerStep {
    Execute { job: Admin, timeout_secs: u64 },
    Sleep { sleep_secs: u64 },
}

/// One step of a worker: a dequeued job is run with the configured
/// timeout; an empty queue or a queue error makes the worker sleep for the
/// configured time.
pub fn worker_step(dequeued: Dequeued, workers: &WorkersConfig) -> (r: WorkerStep)
    ensures
        match dequeued {
            Dequeued::Job(j) => r == WorkerStep::Execute { job: j, timeout_secs: workers.timeout },
            _ => r == WorkerStep::Sleep { sleep_secs: workers.sleep_time },
        },
{
    match dequeued {
        Dequeued::Job(job) => WorkerStep::Execute { job, timeout_secs: workers.timeout },
        Dequeued::Empty => WorkerStep::Sleep { sleep_secs: workers.sleep_time },
        Dequeued::Failed => WorkerStep::Sleep { sleep_secs: workers.sleep_time },
    }
}

} // verus!
