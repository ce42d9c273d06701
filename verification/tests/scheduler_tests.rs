use continu::logging::{format_log_line, log_progress};
use continu::progress::BackupState;
use continu::scheduler::{
    interval_secs, privileged_access, scheduler_step, Access, SchedulerAction, DAILY_SECS,
    IDLE_SECS, WEEKLY_SECS,
};
use continu::settings::Frequency;

#[test]
fn intervals_match_the_frequencies() {
    assert_eq!(interval_secs(Frequency::Hourly), 3600);
    assert_eq!(interval_secs(Frequency::Weekly), 604800);
    assert_eq!(interval_secs(Frequency::Daily), 86400);
    assert_eq!(WEEKLY_SECS, 7 * 24 * 60 * 60);
    assert_eq!(DAILY_SECS, 24 * 60 * 60);
}

#[test]
fn active_session_backs_up_and_sleeps_the_interval() {
    let action = scheduler_step(true, Frequency::Hourly);
    assert_eq!(action, SchedulerAction::RunBackup { sleep_secs: 3600 });
}

#[test]
fn idle_session_polls_briefly() {
    let action = scheduler_step(false, Frequency::Weekly);
    assert_eq!(action, SchedulerAction::Idle { sleep_secs: IDLE_SECS });
    assert_eq!(IDLE_SECS, 60);
}

#[test]
fn privileged_commands_are_gated() {
    assert_eq!(privileged_access(false, true), Access::NeedsRoot);
    assert_eq!(privileged_access(true, false), Access::NeedsLogin);
    assert_eq!(privileged_access(true, true), Access::Allowed);
}

#[test]
fn progress_line_reads_exactly() {
    let mut state = BackupState::new(2, 200);
    state.update_progress(50);
    assert_eq!(
        log_progress(&state),
        "Progress: 25.00% - 1/2 files completed. 50/200 bytes processed."
    );
}

#[test]
fn progress_line_with_fractional_percent() {
    let mut state = BackupState::new(3, 300);
    state.update_progress(100);
    assert_eq!(
        log_progress(&state),
        "Progress: 33.33% - 1/3 files completed. 100/300 bytes processed."
    );
}

#[test]
fn progress_line_of_empty_plan() {
    let state = BackupState::new(0, 0);
    assert_eq!(
        log_progress(&state),
        "Progress: 0.00% - 0/0 files completed. 0/0 bytes processed."
    );
}

#[test]
fn log_lines_carry_their_timestamp() {
    assert_eq!(
        format_log_line("2021-01-02 03:04:05", "Starting system backup..."),
        "[2021-01-02 03:04:05] Starting system backup..."
    );
}
