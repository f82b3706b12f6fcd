//! Status values for admin jobs.

use vstd::prelude::*;

verus! {

pub const QUEUED: &'static str = "queued";

pub const RUNNING: &'static str = "running";

pub const DONE: &'static str = "done";

pub const ERROR: &'static str = "error";

pub const DEFERRED: &'static str = "deferred";

} // verus!
