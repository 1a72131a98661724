//! The decisions of the mailbox scheduler at each poll: whether a scan is due,
//! when the next one is, and what the status shows. Times are seconds since
//! the Unix epoch.
use vstd::prelude::*;

verus! {

/// The shortest interval between scheduled scans, in minutes.
pub open spec fn min_interval_minutes() -> u32 {
    5
}

/// The interval that the settings ask for, raised to the shortest allowed.
pub fn interval_minutes(value: u32) -> (r: u32)
    ensures
        r == if value < min_interval_minutes() {
            min_interval_minutes()
        } else {
            value
        },
{
    if value < 5 {
        5
    } else {
        value
    }
}

/// Scans are never scheduled less than five minutes apart: an interval below
/// five minutes is raised to five, and longer ones are kept.
pub proof fn lemma_interval_floor(value: u32)
    ensures
        effective_interval(value) >= 5,
        value >= 5 ==> effective_interval(value) == value,
        value < 5 ==> effective_interval(value) == 5,
{
}

/// What a poll of the stored settings found.
pub enum SchedulerObservation {
    /// The settings could not be read.
    ReadFailed,
    /// No mailbox is configured.
    NoSettings,
    /// A mailbox is configured, with or without a schedule, and the interval
    /// it asks for.
    Configured { scheduler_enabled: bool, interval_minutes: u32 },
}

/// What the scheduler does after a poll.
pub enum SchedulerAction {
    /// Log that the settings could not be read, and leave everything as it is.
    Warn,
    /// Show the empty status: nothing is scheduled.
    Reset,
    /// Show the schedule as switched off, with its interval.
    Disabled { interval_minutes: u32 },
    /// Show the schedule as waiting for its next run.
    Waiting { interval_minutes: u32, next_run_at: i64 },
    /// Run a scan now (if no other is running); the one after is due at `next_run_at`.
    Run { interval_minutes: u32, next_run_at: i64 },
}

/// The time of the next run after a poll, and the action, from the time of
/// the next run before it and the time `now`.
pub open spec fn tick_spec(next_run_at: Option<i64>, observed: SchedulerObservation, now: i64) -> (
    Option<i64>,
    SchedulerAction,
) {
    match observed {
        SchedulerObservation::ReadFailed => (next_run_at, SchedulerAction::Warn),
        SchedulerObservation::NoSettings => (None, SchedulerAction::Reset),
        SchedulerObservation::Configured { scheduler_enabled, interval_minutes } => {
            let interval = if interval_minutes < min_interval_minutes() {
                min_interval_minutes()
            } else {
                interval_minutes
            };
            if !scheduler_enabled {
                (None, SchedulerAction::Disabled { interval_minutes: interval })
            } else {
                let due_at = match next_run_at {
                    Some(t) => t,
                    None => now,
                };
                if now < due_at {
                    (
                        next_run_at,
                        SchedulerAction::Waiting { interval_minutes: interval, next_run_at: due_at },
                    )
                } else {
                    let next = (now + 60 * interval) as i64;
                    (Some(next), SchedulerAction::Run { interval_minutes: interval, next_run_at: next })
                }
            }
        },
    }
}

/// Decides one poll; see `tick_spec`.
pub fn scheduler_tick(next_run_at: Option<i64>, observed: SchedulerObservation, now: i64) -> (r: (
    Option<i64>,
    SchedulerAction,
))
    requires
        now + 60 * (u32::MAX as int) <= i64::MAX,
    ensures
        r == tick_spec(next_run_at, observed, now),
{
    match observed {
        SchedulerObservation::ReadFailed => (next_run_at, SchedulerAction::Warn),
        SchedulerObservation::NoSettings => (None, SchedulerAction::Reset),
        SchedulerObservation::Configured { scheduler_enabled, interval_minutes: raw } => {
            let interval = interval_minutes(raw);
            if !scheduler_enabled {
                return (None, SchedulerAction::Disabled { interval_minutes: interval });
            }
            let due_at = match next_run_at {
                Some(t) => t,
                None => now,
            };
            if now < due_at {
                (next_run_at, SchedulerAction::Waiting { interval_minutes: interval, next_run_at: due_at })
            } else {
                let next = now + 60 * (interval as i64);
                (Some(next), SchedulerAction::Run { interval_minutes: interval, next_run_at: next })
            }
        },
    }
}

/// A run that starts is due again after one interval, and never before `now`.
pub proof fn lemma_run_reschedules(next_run_at: Option<i64>, enabled_interval: u32, now: i64)
    requires
        now + 60 * (u32::MAX as int) <= i64::MAX,
    ensures
        ({
            let r = tick_spec(
                next_run_at,
                SchedulerObservation::Configured { scheduler_enabled: true, interval_minutes: enabled_interval },
                now,
            );
            r.1 matches SchedulerAction::Run { next_run_at: n, interval_minutes: i } ==> {
                &&& r.0 == Some(n)
                &&& n == now + 60 * i
                &&& i >= min_interval_minutes()
                &&& n > now
            }
        }),
{
}

/// The interval that the settings ask for, raised to the shortest allowed.
pub open spec fn effective_interval(value: u32) -> u32 {
    if value < min_interval_minutes() {
        min_interval_minutes()
    } else {
        value
    }
}

/// The time of the next run after a series of polls, each an observation and
/// the time it was made, starting from `start`.
pub open spec fn poll_next(start: Option<i64>, polls: Seq<(SchedulerObservation, i64)>) -> Option<i64>
    decreases polls.len(),
{
    if polls.len() == 0 {
        start
    } else {
        tick_spec(poll_next(start, polls.drop_last()), polls.last().0, polls.last().1).0
    }
}

/// The action of poll `k` of a series.
pub open spec fn poll_action(start: Option<i64>, polls: Seq<(SchedulerObservation, i64)>, k: int) -> SchedulerAction {
    tick_spec(poll_next(start, polls.take(k)), polls[k].0, polls[k].1).1
}

/// A series of polls that all find the same enabled schedule, at times that
/// leave room for the next run.
pub open spec fn steady_polls(polls: Seq<(SchedulerObservation, i64)>, interval: u32) -> bool {
    &&& forall|k: int|
        0 <= k < polls.len() ==> (#[trigger] polls[k]).0 == SchedulerObservation::Configured {
            scheduler_enabled: true,
            interval_minutes: interval,
        }
    &&& forall|k: int| 0 <= k < polls.len() ==> (#[trigger] polls[k]).1 + 60 * (u32::MAX as int) <= i64::MAX
}

proof fn lemma_next_after_run(
    start: Option<i64>,
    polls: Seq<(SchedulerObservation, i64)>,
    interval: u32,
    i: int,
    k: int,
)
    requires
        steady_polls(polls, interval),
        0 <= i < k <= polls.len(),
        poll_action(start, polls, i) is Run,
    ensures
        poll_next(start, polls.take(k)) matches Some(n) && n >= polls[i].1 + 60 * effective_interval(
            interval,
        ),
    decreases k - i,
{
    assert(polls.take(k).drop_last() =~= polls.take(k - 1));
    assert(polls.take(k).last() == polls[k - 1]);
    if k - 1 > i {
        lemma_next_after_run(start, polls, interval, i, k - 1);
    }
}

/// Scheduled runs are at least one interval apart: over polls that all find the
/// same enabled schedule, whatever the clock does between them, a poll that runs a scan
/// comes at least the effective interval after any earlier poll that ran one.
pub proof fn lemma_runs_an_interval_apart(
    start: Option<i64>,
    polls: Seq<(SchedulerObservation, i64)>,
    interval: u32,
    i: int,
    j: int,
)
    requires
        steady_polls(polls, interval),
        0 <= i < j < polls.len(),
        poll_action(start, polls, i) is Run,
        poll_action(start, polls, j) is Run,
    ensures
        polls[j].1 >= polls[i].1 + 60 * effective_interval(interval),
{
    lemma_next_after_run(start, polls, interval, i, j);
    assert(polls[j].0 == SchedulerObservation::Configured { scheduler_enabled: true, interval_minutes: interval });
}

/// Over polls that all find the same enabled schedule, every poll either
/// waits or runs, with the effective interval; so every status the scheduler
/// writes for them (by `status_after_poll` on `Waiting`, `start_run` and
/// `finish_run`) shows the schedule switched on with that interval.
pub proof fn lemma_steady_actions(
    start: Option<i64>,
    polls: Seq<(SchedulerObservation, i64)>,
    interval: u32,
    k: int,
)
    requires
        steady_polls(polls, interval),
        0 <= k < polls.len(),
    ensures
        poll_action(start, polls, k) matches SchedulerAction::Waiting { interval_minutes: i, .. }
            ==> i == effective_interval(interval),
        poll_action(start, polls, k) matches SchedulerAction::Run { interval_minutes: i, .. }
            ==> i == effective_interval(interval),
        poll_action(start, polls, k) is Waiting || poll_action(start, polls, k) is Run,
{
    assert(polls[k].0 == SchedulerObservation::Configured { scheduler_enabled: true, interval_minutes: interval });
}

/// What the scheduler status shows; times are seconds since the Unix epoch.
pub struct SchedulerStatus {
    pub enabled: bool,
    pub running: bool,
    pub interval_minutes: u32,
    pub next_run_at: Option<i64>,
    pub last_started_at: Option<i64>,
    pub last_finished_at: Option<i64>,
    pub last_success: Option<bool>,
    pub last_error: Option<String>,
    pub last_summary: Option<crate::mailbox::MailboxImportSummary>,
}

/// The status before anything is scheduled.
pub fn empty_status() -> (s: SchedulerStatus)
    ensures
        !s.enabled && !s.running && s.interval_minutes == 0,
        s.next_run_at is None && s.last_started_at is None && s.last_finished_at is None,
        s.last_success is None && s.last_error is None && s.last_summary is None,
{
    SchedulerStatus {
        enabled: false,
        running: false,
        interval_minutes: 0,
        next_run_at: None,
        last_started_at: None,
        last_finished_at: None,
        last_success: None,
        last_error: None,
        last_summary: None,
    }
}

/// The status after a poll whose action is not `Run`: unchanged on `Warn`,
/// empty on `Reset`, switched off on `Disabled`, waiting on `Waiting`.
pub fn status_after_poll(status: SchedulerStatus, action: &SchedulerAction) -> (s: SchedulerStatus)
    requires
        !(action is Run),
    ensures
        match *action {
            SchedulerAction::Warn => s == status,
            SchedulerAction::Reset => s == empty_status_spec(),
            SchedulerAction::Disabled { interval_minutes } => s == (SchedulerStatus {
                enabled: false,
                interval_minutes,
                ..status
            }),
            SchedulerAction::Waiting { interval_minutes, next_run_at } => s == (SchedulerStatus {
                enabled: true,
                running: false,
                interval_minutes,
                next_run_at: Some(next_run_at),
                ..status
            }),
            SchedulerAction::Run { .. } => true,
        },
{
    match action {
        SchedulerAction::Warn => status,
        SchedulerAction::Reset => empty_status(),
        SchedulerAction::Disabled { interval_minutes } => SchedulerStatus {
            enabled: false,
            interval_minutes: *interval_minutes,
            ..status
        },
        SchedulerAction::Waiting { interval_minutes, next_run_at } => SchedulerStatus {
            enabled: true,
            running: false,
            interval_minutes: *interval_minutes,
            next_run_at: Some(*next_run_at),
            ..status
        },
        SchedulerAction::Run { .. } => status,
    }
}

/// The empty status, as a value.
pub open spec fn empty_status_spec() -> SchedulerStatus {
    SchedulerStatus {
        enabled: false,
        running: false,
        interval_minutes: 0,
        next_run_at: None,
        last_started_at: None,
        last_finished_at: None,
        last_success: None,
        last_error: None,
        last_summary: None,
    }
}

/// A due run at `now`: when the sync lock was taken, the scan starts and the
/// status shows it running; otherwise no scan starts and the status only shows
/// the schedule. The flag returned says whether the scan starts.
pub fn start_run(
    status: SchedulerStatus,
    interval_minutes: u32,
    next_run_at: i64,
    now: i64,
    lock_taken: bool,
) -> (r: (SchedulerStatus, bool))
    ensures
        r.1 == lock_taken,
        lock_taken ==> r.0 == (SchedulerStatus {
            enabled: true,
            running: true,
            interval_minutes,
            next_run_at: Some(next_run_at),
            last_started_at: Some(now),
            last_error: None,
            ..status
        }),
        !lock_taken ==> r.0 == (SchedulerStatus {
            enabled: true,
            running: false,
            interval_minutes,
            next_run_at: Some(next_run_at),
            ..status
        }),
{
    if lock_taken {
        (
            SchedulerStatus {
                enabled: true,
                running: true,
                interval_minutes,
                next_run_at: Some(next_run_at),
                last_started_at: Some(now),
                last_error: None,
                ..status
            },
            true,
        )
    } else {
        (
            SchedulerStatus {
                enabled: true,
                running: false,
                interval_minutes,
                next_run_at: Some(next_run_at),
                ..status
            },
            false,
        )
    }
}

/// The status after a scheduled scan finished at `now`, with its summary or
/// the text of its error.
pub fn finish_run(
    status: SchedulerStatus,
    interval_minutes: u32,
    next_run_at: i64,
    now: i64,
    outcome: Result<crate::mailbox::MailboxImportSummary, String>,
) -> (s: SchedulerStatus)
    ensures
        s.enabled && !s.running && s.interval_minutes == interval_minutes,
        s.next_run_at == Some(next_run_at) && s.last_finished_at == Some(now),
        s.last_started_at == status.last_started_at,
        match outcome {
            Ok(summary) => s.last_success == Some(true) && s.last_error is None
                && s.last_summary == Some(summary),
            Err(m) => s.last_success == Some(false) && s.last_error == Some(m)
                && s.last_summary is None,
        },
{
    let (success, error, summary) = match outcome {
        Ok(sm) => (true, None, Some(sm)),
        Err(m) => (false, Some(m), None),
    };
    SchedulerStatus {
        enabled: true,
        running: false,
        interval_minutes,
        next_run_at: Some(next_run_at),
        last_finished_at: Some(now),
        last_success: Some(success),
        last_error: error,
        last_summary: summary,
        ..status
    }
}

/// The status after the mailbox settings were saved at `now`: the schedule
/// shown as switched on or off with its effective interval; a schedule switched
/// on with no run planned has its first run 30 seconds later; one switched off
/// is neither running nor planned.
pub fn status_after_save(status: SchedulerStatus, enabled: bool, raw_interval: u32, now: i64) -> (s:
    SchedulerStatus)
    requires
        now + 30 <= i64::MAX,
    ensures
        s.enabled == enabled,
        s.interval_minutes == effective_interval(raw_interval),
        enabled ==> s.running == status.running && s.next_run_at == (match status.next_run_at {
            Some(t) => Some(t),
            None => Some((now + 30) as i64),
        }),
        !enabled ==> !s.running && s.next_run_at is None,
        s.last_started_at == status.last_started_at && s.last_finished_at == status.last_finished_at,
        s.last_success == status.last_success && s.last_error == status.last_error,
        s.last_summary == status.last_summary,
{
    let interval = interval_minutes(raw_interval);
    if enabled {
        let next = match status.next_run_at {
            Some(t) => Some(t),
            None => Some(now + 30),
        };
        SchedulerStatus { enabled: true, interval_minutes: interval, next_run_at: next, ..status }
    } else {
        SchedulerStatus { enabled: false, running: false, interval_minutes: interval, next_run_at: None, ..status }
    }
}

} // verus!
