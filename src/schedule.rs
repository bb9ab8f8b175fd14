use vstd::prelude::*;

verus! {

/// One backup target: a local directory, where its changed files go, how often it
/// is scanned, from when, and whether uploaded files are deleted locally.
pub struct GatherArgs {
    pub name: String,
    pub local_directory: String,
    pub bucket: String,
    pub bucket_prefix: String,
    /// Seconds between the starts of two scans.
    pub interval: u64,
    /// Seconds since the epoch before which no scan runs.
    pub start_time: u64,
    pub cleanable: bool,
}

impl GatherArgs {
    pub fn new(
        name: String,
        local_directory: String,
        bucket: String,
        bucket_prefix: String,
        interval: u64,
        start_time: u64,
        cleanable: bool,
    ) -> (r: GatherArgs)
        ensures
            r.name == name,
            r.local_directory == local_directory,
            r.bucket == bucket,
            r.bucket_prefix == bucket_prefix,
            r.interval == interval,
            r.start_time == start_time,
            r.cleanable == cleanable,
    {
        GatherArgs { name, local_directory, bucket, bucket_prefix, interval, start_time, cleanable }
    }

    /// The target of a single ad-hoc run: no interval, no start time, nothing
    /// deleted.
    pub fn one_shot(local_directory: String, bucket: String, bucket_prefix: String) -> (r: GatherArgs)
        ensures
            r.name@ == "OneShotter"@,
            r.local_directory == local_directory,
            r.bucket == bucket,
            r.bucket_prefix == bucket_prefix,
            r.interval == 0,
            r.start_time == 0,
            !r.cleanable,
    {
        GatherArgs::new("OneShotter".to_owned(), local_directory, bucket, bucket_prefix, 0, 0, false)
    }
}

/// Where a target's task stands.
#[derive(PartialEq, Eq, Structural, Debug, Clone, Copy)]
pub enum Phase {
    Idle,
    WaitingForStart,
    WaitingForInterval,
    Cycling,
    Terminated,
}

/// What a target's task does next.
#[derive(PartialEq, Eq, Structural, Debug, Clone, Copy)]
pub enum Action {
    /// Sleep this many milliseconds, then ask again.
    Sleep(u128),
    /// Run one cycle: scan, diff, upload, persist, clean up; then ask again.
    RunCycle,
    /// The task is over.
    Stop,
}

/// Milliseconds left until `start_time` (seconds since the epoch) at time `now`
/// (milliseconds since the epoch); zero once it has passed.
pub open spec fn start_wait(start_time: u64, now: u128) -> int {
    if now < start_time * 1000 {
        start_time * 1000 - now
    } else {
        0
    }
}

/// Milliseconds left at `now` until `interval` seconds after the scan at `last`
/// (both in milliseconds since the epoch): the remainder `interval - (now - last)`,
/// which runs until `last + interval` even when `last` lies ahead of `now`; zero once
/// that time has come.
pub open spec fn interval_wait(interval: u64, last: u128, now: u128) -> int {
    if now < last + interval * 1000 {
        last + interval * 1000 - now
    } else {
        0
    }
}

/// A wait in milliseconds as a `Sleep` holds it: waits too long for `u128` are cut
/// to its largest value.
pub open spec fn capped(wait: int) -> u128 {
    if wait > u128::MAX {
        u128::MAX
    } else {
        wait as u128
    }
}

/// The milliseconds to wait at `now` before the start time is reached.
pub fn start_delay(start_time: u64, now: u128) -> (r: u128)
    ensures
        r == start_wait(start_time, now),
{
    let start = start_time as u128 * 1000;
    if now < start {
        start - now
    } else {
        0
    }
}

/// The milliseconds to wait at `now` before `interval` seconds have passed since
/// the scan at `last`.
pub fn interval_delay(interval: u64, last: u128, now: u128) -> (r: u128)
    ensures
        r == capped(interval_wait(interval, last, now)),
{
    let span = interval as u128 * 1000;
    if now >= last {
        let elapsed = now - last;
        if elapsed < span {
            span - elapsed
        } else {
            0
        }
    } else {
        let ahead = last - now;
        if ahead > u128::MAX - span {
            u128::MAX
        } else {
            ahead + span
        }
    }
}

/// The step of a continuous target once its start time has passed: sleep out the
/// interval, or run a cycle.
pub open spec fn interval_step(interval: u64, last: u128, now: u128) -> (Phase, Action) {
    if interval_wait(interval, last, now) > 0 {
        (Phase::WaitingForInterval, Action::Sleep(capped(interval_wait(interval, last, now))))
    } else {
        (Phase::Cycling, Action::RunCycle)
    }
}

/// The scheduler's transition from `phase` at time `now`, with the baseline scanned
/// at `last` and the shared cancellation flag `cancelled`. A one-shot target runs
/// one cycle at once and stops. A continuous target waits for its start time, then
/// for its interval, runs a cycle, and so on; the flag stops it whenever it is
/// asked, which is never during a cycle.
pub open spec fn step(
    phase: Phase,
    oneshot: bool,
    interval: u64,
    start_time: u64,
    now: u128,
    last: u128,
    cancelled: bool,
) -> (Phase, Action) {
    if phase == Phase::Terminated {
        (Phase::Terminated, Action::Stop)
    } else if oneshot {
        if phase == Phase::Cycling {
            (Phase::Terminated, Action::Stop)
        } else {
            (Phase::Cycling, Action::RunCycle)
        }
    } else if cancelled {
        (Phase::Terminated, Action::Stop)
    } else if (phase == Phase::Idle || phase == Phase::WaitingForStart) && start_wait(
        start_time,
        now,
    ) > 0 {
        (Phase::WaitingForStart, Action::Sleep(start_wait(start_time, now) as u128))
    } else {
        interval_step(interval, last, now)
    }
}

/// The scheduler of one target.
pub struct Gatherer {
    interval: u64,
    start_time: u64,
    oneshot: bool,
    phase: Phase,
}

impl Gatherer {
    pub closed spec fn phase_spec(&self) -> Phase {
        self.phase
    }

    pub closed spec fn interval_spec(&self) -> u64 {
        self.interval
    }

    pub closed spec fn start_time_spec(&self) -> u64 {
        self.start_time
    }

    pub closed spec fn oneshot_spec(&self) -> bool {
        self.oneshot
    }

    /// The scheduler of `args`, idle; `oneshot` asks for a single immediate cycle.
    pub fn new(args: &GatherArgs, oneshot: bool) -> (r: Gatherer)
        ensures
            r.phase_spec() == Phase::Idle,
            r.interval_spec() == args.interval,
            r.start_time_spec() == args.start_time,
            r.oneshot_spec() == oneshot,
    {
        Gatherer { interval: args.interval, start_time: args.start_time, oneshot, phase: Phase::Idle }
    }

    pub fn phase(&self) -> (r: Phase)
        ensures
            r == self.phase_spec(),
    {
        self.phase
    }

    /// Decides what the task does next, at time `now`, with the baseline scanned at
    /// `last` (both in milliseconds since the epoch), and moves to the next phase.
    pub fn next_action(&mut self, now: u128, last: u128, cancelled: bool) -> (r: Action)
        ensures
            (final(self).phase_spec(), r) == step(
                old(self).phase_spec(),
                old(self).oneshot_spec(),
                old(self).interval_spec(),
                old(self).start_time_spec(),
                now,
                last,
                cancelled,
            ),
            final(self).interval_spec() == old(self).interval_spec(),
            final(self).start_time_spec() == old(self).start_time_spec(),
            final(self).oneshot_spec() == old(self).oneshot_spec(),
    {
        let (phase, action) = if self.phase == Phase::Terminated {
            (Phase::Terminated, Action::Stop)
        } else if self.oneshot {
            if self.phase == Phase::Cycling {
                (Phase::Terminated, Action::Stop)
            } else {
                (Phase::Cycling, Action::RunCycle)
            }
        } else if cancelled {
            (Phase::Terminated, Action::Stop)
        } else {
            let before_start = self.phase == Phase::Idle || self.phase == Phase::WaitingForStart;
            let wait = start_delay(self.start_time, now);
            if before_start && wait > 0 {
                (Phase::WaitingForStart, Action::Sleep(wait))
            } else {
                let rest = interval_delay(self.interval, last, now);
                if rest > 0 {
                    (Phase::WaitingForInterval, Action::Sleep(rest))
                } else {
                    (Phase::Cycling, Action::RunCycle)
                }
            }
        };
        self.phase = phase;
        action
    }
}

} // verus!
