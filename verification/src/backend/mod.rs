//! Backend decisions: how many workers to run, what a queued job asks for,
//! how a finished job is recorded, and what the scheduler enqueues.

pub mod cron;
pub mod manager;
pub mod scheduler;

use vstd::prelude::*;

use crate::util::text::{
    chars_of,
    parse_usize,
    spec_parse_usize,
    spec_split,
    spec_trim,
    split_char,
    strings_view,
    trim_chars,
};

verus! {

/// How the number of worker tasks is configured: `AUTO` (a multiple of the
/// number of CPUs) or a fixed number.
#[derive(Debug, Clone, Copy, PartialEq, Eq, Structural)]
pub enum WorkerTasks {
    Auto { multiplier: usize },
    Fixed(usize),
}

/// Whether `s` begins with "AUTO".
pub open spec fn starts_with_auto(s: Seq<char>) -> bool {
    s.len() >= 4 && s[0] == 'A' && s[1] == 'U' && s[2] == 'T' && s[3] == 'O'
}

/// The worker setting a tasks string describes: "AUTO..." takes the text
/// between the first and second '*' (trimmed) as the multiplier, 2 when
/// there is none or it is not a number; any other text is a fixed count,
/// 4 when it is not a number.
pub open spec fn spec_worker_tasks(s: Seq<char>) -> WorkerTasks {
    if starts_with_auto(s) {
        let pieces = spec_split(s, '*');
        if pieces.len() > 1 {
            match spec_parse_usize(spec_trim(pieces[1])) {
                Some(m) => WorkerTasks::Auto { multiplier: m },
                None => WorkerTasks::Auto { multiplier: 2 },
            }
        } else {
            WorkerTasks::Auto { multiplier: 2 }
        }
    } else {
        match spec_parse_usize(s) {
            Some(n) => WorkerTasks::Fixed(n),
            None => WorkerTasks::Fixed(4),
        }
    }
}

/// The number of workers for a tasks string on a machine with `cpus` CPUs.
pub open spec fn spec_worker_count(s: Seq<char>, cpus: usize) -> int {
    match spec_worker_tasks(s) {
        WorkerTasks::Auto { multiplier } => cpus * multiplier,
        WorkerTasks::Fixed(n) => n as int,
    }
}

/// Read the worker setting from a tasks string (e.g. "AUTO * 2" or "8").
pub fn parse_worker_tasks(tasks_str: &str) -> (r: WorkerTasks)
    ensures
        r == spec_worker_tasks(tasks_str@),
{
    let chars = chars_of(tasks_str);
    let auto = chars.len() >= 4 && chars[0] == 'A' && chars[1] == 'U' && chars[2] == 'T'
        && chars[3] == 'O';
    if auto {
        let pieces = split_char(tasks_str, '*');
        if pieces.len() > 1 {
            proof {
                assert(strings_view(pieces@)[1] == pieces@[1]@);
            }
            let piece = chars_of(pieces[1].as_str());
            let trimmed = trim_chars(piece.as_slice());
            match parse_usize(trimmed.as_slice()) {
                Some(m) => WorkerTasks::Auto { multiplier: m },
                None => WorkerTasks::Auto { multiplier: 2 },
            }
        } else {
            WorkerTasks::Auto { multiplier: 2 }
        }
    } else {
        match parse_usize(chars.as_slice()) {
            Some(n) => WorkerTasks::Fixed(n),
            None => WorkerTasks::Fixed(4),
        }
    }
}

/// Calculate number of worker tasks from config string (e.g., "AUTO * 2"),
/// given the number of CPUs. The product must fit in a `usize`.
pub fn calculate_workers(tasks_str: &str, cpus: usize) -> (r: usize)
    requires
        spec_worker_count(tasks_str@, cpus) <= usize::MAX,
    ensures
        r == spec_worker_count(tasks_str@, cpus),
{
    match parse_worker_tasks(tasks_str) {
        WorkerTasks::Auto { multiplier } => cpus * multiplier,
        WorkerTasks::Fixed(n) => n,
    }
}

} // verus!
