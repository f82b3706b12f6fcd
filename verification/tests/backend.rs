use netdisco::backend::manager::{
    deleted_message, immediate_result, job_completion, plan_job, worker_step, Dequeued, JobOutcome,
    JobPlan, WorkerStep,
};
use netdisco::backend::cron::{cron_matches, cron_readable, field_matches, ScheduleTime};
use netdisco::backend::scheduler::scheduled_actions;
use netdisco::config::settings::{ScheduleConfig, ScheduleEntry};
use netdisco::backend::{calculate_workers, parse_worker_tasks, WorkerTasks};
use netdisco::models::Admin;
use netdisco::util::net::{IpAddress, IpNet};
use netdisco::web::auth::is_valid_job_action;

fn ip() -> IpNet {
    IpNet { addr: IpAddress::V4(0x0a00_0001), prefix: 32 }
}

fn job(id: Option<i32>, action: Option<&str>, device: Option<IpNet>) -> Admin {
    Admin {
        job: id,
        entered: None,
        started: None,
        finished: None,
        device,
        port: None,
        action: action.map(String::from),
        subaction: None,
        status: None,
        username: None,
        userip: None,
        log: None,
        debug: None,
    }
}

const ACTIONS: [&str; 18] = [
    "discover", "discoverall", "macsuck", "macwalk", "arpnip", "arpwalk", "nbtstat", "nbtwalk",
    "expire", "delete", "portcontrol", "portname", "portvlan", "power", "graph", "show", "stats",
    "linter",
];

#[test]
fn worker_counts() {
    assert_eq!(calculate_workers("AUTO * 2", 4), 8);
    assert_eq!(calculate_workers("AUTO", 4), 8);
    assert_eq!(calculate_workers("AUTO * 3", 4), 12);
    assert_eq!(calculate_workers("AUTO*5", 1), 5);
    assert_eq!(calculate_workers("AUTO * x", 4), 8);
    assert_eq!(calculate_workers("AUTO * 3 * 5", 2), 6);
    assert_eq!(calculate_workers("AUTO *\t5\n", 2), 10);
    assert_eq!(calculate_workers("AUTO * 0", 16), 0);
    assert_eq!(calculate_workers("6", 4), 6);
    assert_eq!(calculate_workers("+7", 1), 7);
    assert_eq!(calculate_workers(" 7", 1), 4);
    assert_eq!(calculate_workers("abc", 4), 4);
    assert_eq!(calculate_workers("", 4), 4);
    assert_eq!(calculate_workers("auto * 3", 4), 4);
}

#[test]
fn worker_settings() {
    assert_eq!(parse_worker_tasks("AUTO * 2"), WorkerTasks::Auto { multiplier: 2 });
    assert_eq!(parse_worker_tasks("AUTOMATIC"), WorkerTasks::Auto { multiplier: 2 });
    assert_eq!(parse_worker_tasks("AUTO * 4"), WorkerTasks::Auto { multiplier: 4 });
    assert_eq!(parse_worker_tasks("12"), WorkerTasks::Fixed(12));
    assert_eq!(parse_worker_tasks("twelve"), WorkerTasks::Fixed(4));
}

#[test]
fn device_actions_plan_with_device() {
    assert_eq!(plan_job(&job(Some(1), Some("discover"), Some(ip()))), JobPlan::Discover(ip()));
    assert_eq!(plan_job(&job(Some(1), Some("macsuck"), Some(ip()))), JobPlan::Macsuck(ip()));
    assert_eq!(plan_job(&job(Some(1), Some("arpnip"), Some(ip()))), JobPlan::Arpnip(ip()));
    assert_eq!(plan_job(&job(Some(1), Some("delete"), Some(ip()))), JobPlan::Delete(ip()));
}

#[test]
fn device_actions_without_device_fail() {
    for action in ["discover", "macsuck", "arpnip", "delete"] {
        let plan = plan_job(&job(None, Some(action), None));
        assert_eq!(plan, JobPlan::MissingDevice);
        assert_eq!(immediate_result(&plan, action), Some(Err(format!("{} requires a device IP", action))));
    }
}

#[test]
fn walk_and_port_actions() {
    assert_eq!(plan_job(&job(None, Some("discoverall"), None)), JobPlan::DiscoverAll);
    assert_eq!(plan_job(&job(None, Some("macwalk"), None)), JobPlan::Macwalk);
    assert_eq!(plan_job(&job(None, Some("arpwalk"), None)), JobPlan::Arpwalk);
    assert_eq!(plan_job(&job(None, Some("nbtstat"), None)), JobPlan::Nbtstat);
    assert_eq!(plan_job(&job(None, Some("nbtwalk"), Some(ip()))), JobPlan::Nbtwalk);
    assert_eq!(plan_job(&job(None, Some("expire"), None)), JobPlan::Expire);
    for action in ["portcontrol", "portname", "portvlan", "power"] {
        assert_eq!(plan_job(&job(None, Some(action), None)), JobPlan::PortAction);
    }
    assert_eq!(immediate_result(&JobPlan::Macwalk, "macwalk"), None);
}

#[test]
fn placeholder_actions() {
    for action in ["graph", "show", "stats", "linter"] {
        let plan = plan_job(&job(None, Some(action), None));
        assert_eq!(plan, JobPlan::Placeholder);
        assert_eq!(
            immediate_result(&plan, action),
            Some(Ok(format!("Action '{}' completed (placeholder)", action)))
        );
    }
}

#[test]
fn unknown_actions() {
    let plan = plan_job(&job(None, Some("bogus"), Some(ip())));
    assert_eq!(plan, JobPlan::Unknown);
    assert_eq!(immediate_result(&plan, "bogus"), Some(Err("Unknown action: bogus".to_string())));
    assert_eq!(plan_job(&job(None, None, None)), JobPlan::Unknown);
    assert_eq!(immediate_result(&JobPlan::Unknown, ""), Some(Err("Unknown action: ".to_string())));
    assert_eq!(plan_job(&job(None, Some("Discover"), Some(ip()))), JobPlan::Unknown);
}

#[test]
fn queueable_actions_are_all_planned() {
    for action in ACTIONS {
        if is_valid_job_action(action) {
            assert_ne!(plan_job(&job(None, Some(action), None)), JobPlan::Unknown);
            assert_ne!(plan_job(&job(None, Some(action), Some(ip()))), JobPlan::Unknown);
        }
    }
}

#[test]
fn delete_log() {
    assert_eq!(deleted_message(&ip()), "Deleted device 10.0.0.1/32");
}

#[test]
fn completion_records() {
    let j = job(Some(42), Some("discover"), Some(ip()));
    let done = job_completion(&j, JobOutcome::Completed("ok".to_string()));
    assert_eq!((done.job_id, done.status.as_str(), done.log.as_str()), (42, "done", "ok"));
    let failed = job_completion(&j, JobOutcome::Failed("boom".to_string()));
    assert_eq!((failed.status.as_str(), failed.log.as_str()), ("error", "boom"));
    let late = job_completion(&job(None, None, None), JobOutcome::TimedOut);
    assert_eq!((late.job_id, late.status.as_str(), late.log.as_str()), (0, "error", "Job timed out"));
}

fn at(hour: u32, minute: u32) -> ScheduleTime {
    // 2024-01-01 (a Monday) at hour:minute, counted in minutes since the epoch.
    let epoch_minutes = 28_401_120 + (hour as u64) * 60 + minute as u64;
    ScheduleTime { minute, hour, day: 1, month: 1, weekday: 1, epoch_minutes }
}

fn no_schedule() -> ScheduleConfig {
    ScheduleConfig::default()
}

fn entry(when: &str) -> Option<ScheduleEntry> {
    Some(ScheduleEntry { when: when.to_string() })
}

#[test]
fn schedule_examples() {
    let s = no_schedule();
    assert_eq!(scheduled_actions(&s, &at(7, 5)), vec!["discoverall"]);
    assert_eq!(scheduled_actions(&s, &at(9, 20)), vec!["macwalk"]);
    assert_eq!(scheduled_actions(&s, &at(9, 40)), vec!["macwalk", "arpwalk"]);
    assert_eq!(scheduled_actions(&s, &at(23, 30)), vec!["expire"]);
    assert!(scheduled_actions(&s, &at(12, 13)).is_empty());
    let t = ScheduleTime { minute: 0, hour: 8, day: 1, month: 1, weekday: 1, epoch_minutes: 1 };
    assert_eq!(scheduled_actions(&s, &t), vec!["macwalk", "nbtwalk"]);
    let t = ScheduleTime { minute: 0, hour: 13, day: 1, month: 1, weekday: 1, epoch_minutes: 100 };
    assert_eq!(scheduled_actions(&s, &t), vec!["macwalk", "arpwalk", "nbtwalk"]);
}

#[test]
fn arpwalk_every_fifty_minutes() {
    let s = no_schedule();
    let mut last: Option<u64> = None;
    let mut runs = 0;
    for m in 0..(24 * 60u64) {
        let t = ScheduleTime {
            minute: (m % 60) as u32,
            hour: (m / 60) as u32,
            day: 1,
            month: 1,
            weekday: 1,
            epoch_minutes: 28_401_120 + m,
        };
        if scheduled_actions(&s, &t).contains(&"arpwalk") {
            if let Some(prev) = last {
                assert_eq!(m - prev, 50);
            }
            last = Some(m);
            runs += 1;
        }
    }
    assert!(runs >= 28);
}

#[test]
fn configured_schedule_replaces_defaults() {
    let mut s = no_schedule();
    s.macwalk = entry("15 * * * *");
    assert_eq!(scheduled_actions(&s, &at(9, 15)), vec!["macwalk"]);
    assert!(!scheduled_actions(&s, &at(9, 0)).contains(&"macwalk"));
    assert!(!scheduled_actions(&s, &at(9, 20)).contains(&"macwalk"));
    s.discoverall = entry("*/10 6-8 * * *");
    assert!(scheduled_actions(&s, &at(6, 30)).contains(&"discoverall"));
    assert!(!scheduled_actions(&s, &at(7, 5)).contains(&"discoverall"));
    assert!(!scheduled_actions(&s, &at(9, 30)).contains(&"discoverall"));
    s.expire = entry("0 2 1 * *");
    assert!(scheduled_actions(&s, &at(2, 0)).contains(&"expire"));
    assert!(!scheduled_actions(&s, &at(23, 30)).contains(&"expire"));
    s.nbtwalk = entry("0,30 12 * * 0,7");
    let sunday = ScheduleTime { minute: 30, hour: 12, day: 7, month: 1, weekday: 0, epoch_minutes: 1 };
    assert!(scheduled_actions(&s, &sunday).contains(&"nbtwalk"));
    assert!(!scheduled_actions(&s, &at(12, 30)).contains(&"nbtwalk"));
    s.arpwalk = entry("5/20 * * * *");
    assert!(scheduled_actions(&s, &at(1, 25)).contains(&"arpwalk"));
    assert!(!scheduled_actions(&s, &at(1, 0)).contains(&"arpwalk"));
}

#[test]
fn unreadable_schedule_falls_back_to_default() {
    let mut s = no_schedule();
    s.macwalk = entry("every twenty minutes");
    assert_eq!(scheduled_actions(&s, &at(9, 20)), vec!["macwalk"]);
    s.macwalk = entry("");
    assert!(scheduled_actions(&s, &at(9, 40)).contains(&"macwalk"));
}

#[test]
fn cron_fields() {
    assert!(field_matches("*", 17, 0, 59));
    assert!(field_matches("1,17,30", 17, 0, 59));
    assert!(field_matches("10-20", 17, 0, 59));
    assert!(!field_matches("18-20", 17, 0, 59));
    assert!(field_matches("*/15", 45, 0, 59));
    assert!(!field_matches("*/15", 44, 0, 59));
    assert!(field_matches("10-50/20", 30, 0, 59));
    assert!(!field_matches("10-50/20", 20, 0, 59));
    assert!(!field_matches("*/0", 0, 0, 59));
    assert!(!field_matches("x", 0, 0, 59));
    assert!(!field_matches("", 0, 0, 59));
    assert!(cron_readable("0 8,13,21 * * *"));
    assert!(!cron_readable("0 8 * *"));
    assert!(cron_matches("0 8,13,21 * * *", &at(13, 0)));
    assert!(!cron_matches("0 8,13,21 * * *", &at(14, 0)));
    // Day-of-month or day-of-week when both are restricted.
    assert!(cron_matches("0 0 15 * 1", &at(0, 0)));
}

#[test]
fn schedule_over_a_day() {
    let s = no_schedule();
    let mut discoverall = 0;
    let mut counts = std::collections::HashMap::new();
    for hour in 0..24 {
        for minute in 0..60 {
            let due = scheduled_actions(&s, &at(hour, minute));
            for (i, a) in due.iter().enumerate() {
                assert!(is_valid_job_action(a));
                assert!(!due[..i].contains(a));
                *counts.entry(*a).or_insert(0) += 1;
            }
            if due.contains(&"discoverall") {
                discoverall += 1;
                assert_eq!((hour, minute), (7, 5));
            }
        }
    }
    assert_eq!(discoverall, 1);
    assert_eq!(counts["macwalk"], 72);
    assert_eq!(counts["nbtwalk"], 3);
    assert_eq!(counts["expire"], 1);
}

#[test]
fn worker_steps() {
    let workers = netdisco::config::settings::WorkersConfig::default();
    match worker_step(Dequeued::Job(job(Some(3), Some("macwalk"), None)), &workers) {
        WorkerStep::Execute { job, timeout_secs } => {
            assert_eq!(job.job, Some(3));
            assert_eq!(timeout_secs, 600);
        }
        other => panic!("unexpected {:?}", other),
    }
    assert!(matches!(worker_step(Dequeued::Empty, &workers), WorkerStep::Sleep { sleep_secs: 1 }));
    assert!(matches!(worker_step(Dequeued::Failed, &workers), WorkerStep::Sleep { sleep_secs: 1 }));
}
