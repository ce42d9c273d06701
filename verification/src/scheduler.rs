//! The scheduler's decisions.  The long-lived loop itself sleeps and does
//! I/O outside the library; each wake-up hands the current login state and
//! configured frequency in, and gets back what to do and how long to sleep.

use vstd::prelude::*;
use crate::settings::Frequency;

verus! {

/// Seconds between automatic backups when the frequency is hourly.
pub const HOURLY_SECS: u64 = 3600;

/// Seconds between automatic backups when the frequency is weekly.
pub const WEEKLY_SECS: u64 = 604800;

/// Seconds between automatic backups when the frequency is daily.
pub const DAILY_SECS: u64 = 86400;

/// Seconds to idle before re-checking login state without a session.
pub const IDLE_SECS: u64 = 60;

/// The interval a frequency selects.
pub open spec fn spec_interval_secs(f: Frequency) -> u64 {
    match f {
        Frequency::Hourly => HOURLY_SECS,
        Frequency::Weekly => WEEKLY_SECS,
        Frequency::Daily => DAILY_SECS,
    }
}

/// The seconds the scheduler sleeps between backups at frequency `f`.
pub fn interval_secs(f: Frequency) -> (r: u64)
    ensures
        r == spec_interval_secs(f),
{
    match f {
        Frequency::Hourly => HOURLY_SECS,
        Frequency::Weekly => WEEKLY_SECS,
        Frequency::Daily => DAILY_SECS,
    }
}

/// What one wake-up of the scheduler loop does next.
#[derive(Clone, Copy, Debug, PartialEq, Eq, Structural)]
pub enum SchedulerAction {
    /// Run a backup pass now, then sleep this long before re-checking.
    RunBackup { sleep_secs: u64 },
    /// No session: only sleep this long before re-checking.
    Idle { sleep_secs: u64 },
}

/// Decides one wake-up: with a session active, back up and sleep the
/// configured interval; without one, idle briefly and poll again.
pub fn scheduler_step(logged_in: bool, f: Frequency) -> (r: SchedulerAction)
    ensures
        logged_in ==> r == (SchedulerAction::RunBackup { sleep_secs: spec_interval_secs(f) }),
        !logged_in ==> r == (SchedulerAction::Idle { sleep_secs: IDLE_SECS }),
{
    if logged_in {
        SchedulerAction::RunBackup { sleep_secs: interval_secs(f) }
    } else {
        SchedulerAction::Idle { sleep_secs: IDLE_SECS }
    }
}

/// Why a privileged command may not proceed.
#[derive(Clone, Copy, Debug, PartialEq, Eq, Structural)]
pub enum Access {
    Allowed,
    NeedsRoot,
    NeedsLogin,
}

/// Gates the privileged backup and restore commands: they need elevated
/// privilege first, then an active session.
pub fn privileged_access(is_root: bool, logged_in: bool) -> (r: Access)
    ensures
        !is_root ==> r == Access::NeedsRoot,
        is_root && !logged_in ==> r == Access::NeedsLogin,
        is_root && logged_in ==> r == Access::Allowed,
{
    if !is_root {
        Access::NeedsRoot
    } else if !logged_in {
        Access::NeedsLogin
    } else {
        Access::Allowed
    }
}

} // verus!
