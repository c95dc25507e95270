//! Driving the event loop until the page is quiet, or until a promise settles.
//! Instants are nanoseconds of one clock.

use vstd::prelude::*;

use crate::host::{LATEST_INSTANT, MILLISECOND};
use crate::watchdog::{SYNCHRONOUS_TASK_FLOOR_MS, WATCHDOG_SCHEDULING_MARGIN_MS};

verus! {

/// Requests and scripts under way count as a reason to wait for so long.
pub const EXTERNAL_WORK_GRACE_MS: u64 = 1_000;

/// Changes of the page count as a reason to wait for so long.
pub const OBSERVABLE_ACTIVITY_TAIL_MS: u64 = 500;

/// The longest slice of the event loop while a promise is awaited.
pub const LONGEST_SLICE_MS: u64 = 50;

/// The longest slice of the event loop while a module is evaluated.
pub const MODULE_SLICE_MS: u64 = 20;

/// The nanoseconds of some milliseconds.
pub open spec fn nanos(ms: int) -> int {
    ms * 1_000_000
}

/// The lesser of the two.
pub open spec fn lesser(a: int, b: int) -> int {
    if a < b {
        a
    } else {
        b
    }
}

fn min_instant(a: u128, b: u128) -> (r: u128)
    ensures
        r == lesser(a as int, b as int),
{
    if a < b {
        a
    } else {
        b
    }
}

/// The policy of a run until quiescence.
pub struct Quiescence {
    /// The end of the whole run.
    pub deadline: u128,
    /// Until when requests and scripts count.
    pub external_work_deadline: u128,
    /// Until when changes and near timers count.
    pub activity_deadline: u128,
    /// How long the page has to be quiet.
    pub quiet: u128,
    /// The change that was seen last.
    pub generation: u64,
    /// Since when the page has been quiet.
    pub quiet_since: Option<u128>,
}

/// What a run sees of the page.
pub struct Observation {
    pub now: u128,
    /// Counts the changes of the page.
    pub generation: u64,
    /// A timer is due within two quiet windows.
    pub near_timeout: bool,
    /// A request is under way.
    pub network_pending: bool,
    /// A dynamic script is under way.
    pub scripts_pending: bool,
}

/// What a run does next.
#[derive(Clone, Copy, Debug, PartialEq, Eq, Structural)]
pub enum QuietStep {
    /// It is over.
    Stop,
    /// It gives the event loop a turn, until an instant at the latest, under a
    /// watchdog with a budget.
    Tick { until: u128, watchdog: u128 },
}

/// How a turn of the event loop ended.
pub enum TickEnd {
    /// Nothing is left to do.
    Idle,
    /// There is more to do, or the time was up.
    More,
    /// With an error.
    Failed(String),
}

impl Quiescence {
    /// The windows lie inside the run, and no instant overflows.
    pub open spec fn wf(self) -> bool {
        &&& self.deadline <= LATEST_INSTANT + LATEST_INSTANT
        &&& self.external_work_deadline <= self.deadline
        &&& self.activity_deadline <= self.deadline
        &&& self.activity_deadline <= self.external_work_deadline + nanos(
            OBSERVABLE_ACTIVITY_TAIL_MS as int,
        )
        &&& self.quiet <= LATEST_INSTANT
        &&& match self.quiet_since {
            Some(t) => t <= LATEST_INSTANT,
            None => true,
        }
    }
}

/// Requests or scripts give the run a reason to wait.
pub open spec fn external_work(q: Quiescence, o: Observation) -> bool {
    o.now < q.external_work_deadline && (o.network_pending || o.scripts_pending)
}

/// A near timer gives the run a reason to wait.
pub open spec fn near_work(q: Quiescence, o: Observation) -> bool {
    o.now < q.activity_deadline && o.near_timeout
}

/// Since when the page counts as quiet, where nothing gives a reason to wait:
/// a change starts the window anew while changes count.
pub open spec fn quiet_from(q: Quiescence, o: Observation) -> u128 {
    if o.now < q.activity_deadline && o.generation != q.generation {
        o.now
    } else {
        match q.quiet_since {
            Some(t) => t,
            None => o.now,
        }
    }
}

/// The policy after an observation.
pub open spec fn observed(q: Quiescence, o: Observation) -> Quiescence {
    if external_work(q, o) {
        Quiescence {
            activity_deadline: lesser(
                q.deadline as int,
                q.external_work_deadline + nanos(OBSERVABLE_ACTIVITY_TAIL_MS as int),
            ) as u128,
            generation: o.generation,
            quiet_since: None,
            ..q
        }
    } else if near_work(q, o) {
        Quiescence { generation: o.generation, quiet_since: None, ..q }
    } else {
        Quiescence { generation: o.generation, quiet_since: Some(quiet_from(q, o)), ..q }
    }
}

/// The page has been quiet for long enough.
pub open spec fn quiet_enough(q: Quiescence, o: Observation) -> bool {
    &&& !external_work(q, o)
    &&& !near_work(q, o)
    &&& lesser(quiet_from(q, o) as int, o.now as int) + q.quiet <= o.now
}

/// Until when the event loop gets a turn.
pub open spec fn turn_end(q: Quiescence, o: Observation) -> int {
    lesser(
        if external_work(q, o) {
            q.external_work_deadline as int
        } else if near_work(q, o) {
            q.activity_deadline as int
        } else {
            quiet_from(q, o) + q.quiet
        },
        q.deadline as int,
    )
}

/// What a run does after an observation.
pub open spec fn quiet_step(q: Quiescence, o: Observation) -> QuietStep {
    if o.now > q.deadline || quiet_enough(q, o) {
        QuietStep::Stop
    } else {
        let until: int = turn_end(q, o);
        QuietStep::Tick {
            until: until as u128,
            watchdog: ((if until > o.now {
                until - o.now
            } else {
                0
            }) + nanos(SYNCHRONOUS_TASK_FLOOR_MS + WATCHDOG_SCHEDULING_MARGIN_MS)) as u128,
        }
    }
}

/// The policy of a run; nothing for a run without a budget.
pub open spec fn quiescence(
    budget_ms: u64,
    quiet_ms: u64,
    now: u128,
    generation: u64,
) -> Option<Quiescence> {
    if budget_ms == 0 {
        None
    } else {
        let deadline: int = now + nanos(budget_ms as int);
        let quiet: int = lesser(
            if quiet_ms > 1 {
                quiet_ms as int
            } else {
                1
            },
            budget_ms as int,
        );
        Some(
            Quiescence {
                deadline: deadline as u128,
                external_work_deadline: (now + lesser(
                    nanos(EXTERNAL_WORK_GRACE_MS as int),
                    nanos(budget_ms as int),
                )) as u128,
                activity_deadline: lesser(
                    deadline,
                    now + nanos(OBSERVABLE_ACTIVITY_TAIL_MS as int),
                ) as u128,
                quiet: nanos(quiet) as u128,
                generation,
                quiet_since: None,
            },
        )
    }
}

impl Quiescence {
    /// The policy of a run of so many milliseconds at most.
    pub fn run_event_loop_until_quiescent(
        budget_ms: u64,
        quiet_ms: u64,
        now: u128,
        generation: u64,
    ) -> (r: Option<Self>)
        requires
            now <= LATEST_INSTANT,
        ensures
            r == quiescence(budget_ms, quiet_ms, now, generation),
            match r {
                Some(q) => q.wf(),
                None => true,
            },
    {
        if budget_ms == 0 {
            return None;
        }
        let budget: u128 = budget_ms as u128 * MILLISECOND;
        let at_least: u64 = if quiet_ms > 1 {
            quiet_ms
        } else {
            1
        };
        let quiet_ms: u64 = if at_least < budget_ms {
            at_least
        } else {
            budget_ms
        };
        let grace: u128 = min_instant(EXTERNAL_WORK_GRACE_MS as u128 * MILLISECOND, budget);
        let tail: u128 = OBSERVABLE_ACTIVITY_TAIL_MS as u128 * MILLISECOND;
        Some(
            Quiescence {
                deadline: now + budget,
                external_work_deadline: now + grace,
                activity_deadline: min_instant(now + budget, now + tail),
                quiet: quiet_ms as u128 * MILLISECOND,
                generation,
                quiet_since: None,
            },
        )
    }

    /// The budget of the watchdog over the whole run.
    pub fn watchdog_budget(budget_ms: u64) -> (r: u128)
        ensures
            r == nanos(budget_ms + SYNCHRONOUS_TASK_FLOOR_MS + WATCHDOG_SCHEDULING_MARGIN_MS),
    {
        (budget_ms as u128 + SYNCHRONOUS_TASK_FLOOR_MS as u128
            + WATCHDOG_SCHEDULING_MARGIN_MS as u128) * MILLISECOND
    }

    /// Takes an observation in, and says what the run does next.
    pub fn observe(&mut self, o: &Observation) -> (r: QuietStep)
        requires
            old(self).wf(),
            o.now <= LATEST_INSTANT,
        ensures
            final(self).wf(),
            r == quiet_step(*old(self), *o),
            o.now <= old(self).deadline ==> *final(self) == observed(*old(self), *o),
            o.now > old(self).deadline ==> *final(self) == *old(self),
    {
        let now: u128 = o.now;
        if now > self.deadline {
            return QuietStep::Stop;
        }
        let tail: u128 = OBSERVABLE_ACTIVITY_TAIL_MS as u128 * MILLISECOND;
        let external: bool = now < self.external_work_deadline && (o.network_pending
            || o.scripts_pending);
        let near: bool = now < self.activity_deadline && o.near_timeout;
        let until: u128 = if external {
            self.activity_deadline = min_instant(self.deadline, self.external_work_deadline + tail);
            self.generation = o.generation;
            self.quiet_since = None;
            self.external_work_deadline
        } else if near {
            self.generation = o.generation;
            self.quiet_since = None;
            self.activity_deadline
        } else {
            if now < self.activity_deadline && o.generation != self.generation {
                self.quiet_since = Some(now);
            }
            self.generation = o.generation;
            let since: u128 = match self.quiet_since {
                Some(t) => t,
                None => now,
            };
            self.quiet_since = Some(since);
            let elapsed: u128 = if now > since {
                now - since
            } else {
                0
            };
            if elapsed >= self.quiet {
                return QuietStep::Stop;
            }
            since + self.quiet
        };
        let until: u128 = min_instant(until, self.deadline);
        let rest: u128 = if until > now {
            until - now
        } else {
            0
        };
        let margin: u128 = (SYNCHRONOUS_TASK_FLOOR_MS as u128
            + WATCHDOG_SCHEDULING_MARGIN_MS as u128) * MILLISECOND;
        QuietStep::Tick { until, watchdog: rest + margin }
    }
}

/// What a run does after a turn of the event loop: it ends where the watchdog
/// fired, where nothing is left to do, and with an error; else it goes on.
pub fn after_tick(tick: TickEnd, fired: bool) -> (r: Option<Result<(), String>>)
    ensures
        r == (if fired {
            Some(Ok::<(), String>(()))
        } else {
            match tick {
                TickEnd::Idle => Some(Ok::<(), String>(())),
                TickEnd::More => None,
                TickEnd::Failed(e) => Some(Err::<(), String>(e)),
            }
        }),
{
    if fired {
        return Some(Ok(()));
    }
    match tick {
        TickEnd::Idle => Some(Ok(())),
        TickEnd::More => None,
        TickEnd::Failed(e) => Some(Err(e)),
    }
}

/// A run never gives the event loop a turn past its budget, and is over once
/// the budget is.
pub proof fn quiet_runs_keep_their_budget(q: Quiescence, o: Observation)
    requires
        q.wf(),
    ensures
        o.now > q.deadline ==> quiet_step(q, o) == QuietStep::Stop,
        match quiet_step(q, o) {
            QuietStep::Tick { until, watchdog } => until <= q.deadline,
            QuietStep::Stop => true,
        },
        observed(q, o).deadline == q.deadline,
        observed(q, o).external_work_deadline == q.external_work_deadline,
{
}

/// After the grace, requests and scripts under way make no difference.
pub proof fn hung_requests_stop_counting(
    q: Quiescence,
    o: Observation,
    network_pending: bool,
    scripts_pending: bool,
)
    requires
        o.now >= q.external_work_deadline,
    ensures
        quiet_step(q, o) == quiet_step(
            q,
            Observation { network_pending, scripts_pending, ..o },
        ),
        observed(q, o) == observed(q, Observation { network_pending, scripts_pending, ..o }),
{
}

/// Once neither requests nor changes count any more, the page is found quiet
/// at the end of the quiet window, whatever it still does.
pub proof fn perpetual_changes_stop_counting(q: Quiescence, o: Observation)
    requires
        q.wf(),
        o.now >= q.external_work_deadline,
        o.now >= q.activity_deadline,
    ensures
        match q.quiet_since {
            Some(t) => o.now >= t + q.quiet ==> quiet_step(q, o) == QuietStep::Stop,
            None => true,
        },
        match quiet_step(q, o) {
            QuietStep::Tick { until, watchdog } => {
                &&& observed(q, o).quiet_since is Some
                &&& q.quiet_since is Some ==> observed(q, o).quiet_since == q.quiet_since
                &&& until <= quiet_from(q, o) + q.quiet
            },
            QuietStep::Stop => true,
        },
{
}

/// A page on which nothing happens is found quiet at the end of the first quiet
/// window, and not before.
pub proof fn quiet_pages_are_found_quiet(q: Quiescence, o: Observation, since: u128)
    requires
        q.wf(),
        o.now <= q.deadline,
        q.quiet_since == Some(since),
        since <= o.now,
        !o.network_pending,
        !o.scripts_pending,
        !o.near_timeout,
        o.generation == q.generation,
    ensures
        quiet_step(q, o) == QuietStep::Stop <==> o.now >= since + q.quiet,
{
}

/// While requests and scripts count, one that is under way keeps the page from
/// counting as settled: the run goes on, the event loop gets a turn until they
/// count no longer, and no quiet window runs. From then on changes count for
/// half a second more.
pub proof fn pending_work_keeps_the_page_busy(q: Quiescence, o: Observation)
    requires
        q.wf(),
        o.now <= q.deadline,
        o.now < q.external_work_deadline,
        o.network_pending || o.scripts_pending,
    ensures
        match quiet_step(q, o) {
            QuietStep::Tick { until, watchdog } => {
                &&& until == q.external_work_deadline
                &&& watchdog == until - o.now + 5_500_000_000
            },
            QuietStep::Stop => false,
        },
        observed(q, o).quiet_since is None,
        observed(q, o).generation == o.generation,
        observed(q, o).activity_deadline <= q.deadline,
        observed(q, o).activity_deadline == q.deadline || observed(q, o).activity_deadline
            == q.external_work_deadline + 500_000_000,
        observed(q, o).deadline == q.deadline,
        observed(q, o).external_work_deadline == q.external_work_deadline,
        observed(q, o).quiet == q.quiet,
{
}

/// While near timers count, one that is due keeps the page from counting as
/// settled, with nothing else under way too: the event loop gets a turn until
/// they count no longer, and no quiet window runs.
pub proof fn near_timers_keep_the_page_busy(q: Quiescence, o: Observation)
    requires
        q.wf(),
        o.now <= q.deadline,
        o.now < q.activity_deadline,
        o.near_timeout,
    ensures
        quiet_step(q, o) != QuietStep::Stop,
        observed(q, o).quiet_since is None,
        observed(q, o).generation == o.generation,
        !o.network_pending && !o.scripts_pending ==> match quiet_step(q, o) {
            QuietStep::Tick { until, watchdog } => {
                &&& until == q.activity_deadline
                &&& watchdog == until - o.now + 5_500_000_000
                &&& observed(q, o).activity_deadline == q.activity_deadline
            },
            QuietStep::Stop => false,
        },
{
}

/// With nothing under way, a change starts the quiet window anew while changes
/// count; without one the window that runs goes on, and one starts where none
/// does. The event loop gets a turn until its end.
pub proof fn changes_start_the_quiet_window_anew(q: Quiescence, o: Observation)
    requires
        q.wf(),
        o.now <= q.deadline,
        o.now <= LATEST_INSTANT,
        q.quiet > 0,
        !o.network_pending,
        !o.scripts_pending,
        !o.near_timeout,
    ensures
        ({
            let since: Option<u128> = observed(q, o).quiet_since;
            &&& o.now < q.activity_deadline && o.generation != q.generation ==> since == Some(o.now)
            &&& o.now >= q.activity_deadline || o.generation == q.generation ==> since == (
            if q.quiet_since is Some {
                q.quiet_since
            } else {
                Some(o.now)
            })
            &&& since == Some(o.now) ==> match quiet_step(q, o) {
                QuietStep::Tick { until, watchdog } => {
                    &&& until <= o.now + q.quiet && until <= q.deadline
                    &&& until == o.now + q.quiet || until == q.deadline
                    &&& watchdog == until - o.now + 5_500_000_000
                },
                QuietStep::Stop => false,
            }
            &&& observed(q, o).generation == o.generation
            &&& observed(q, o).activity_deadline == q.activity_deadline
        }),
{
}

/// A run without a budget is none. Any other ends with its budget; in it
/// requests and scripts count for a second and changes for half of one, as far
/// as the budget goes, and the quiet window is the one asked for, but at least
/// a millisecond and at most the budget.
pub proof fn runs_have_the_windows_asked_for(
    budget_ms: u64,
    quiet_ms: u64,
    now: u128,
    generation: u64,
)
    requires
        now <= LATEST_INSTANT,
    ensures
        match quiescence(budget_ms, quiet_ms, now, generation) {
            None => budget_ms == 0,
            Some(q) => {
                &&& budget_ms > 0
                &&& q.deadline == now + budget_ms * 1_000_000
                &&& budget_ms >= 1_000 ==> q.external_work_deadline == now + 1_000_000_000
                &&& budget_ms < 1_000 ==> q.external_work_deadline == q.deadline
                &&& budget_ms >= 500 ==> q.activity_deadline == now + 500_000_000
                &&& budget_ms < 500 ==> q.activity_deadline == q.deadline
                &&& 1 <= quiet_ms <= budget_ms ==> q.quiet == quiet_ms * 1_000_000
                &&& quiet_ms == 0 ==> q.quiet == 1_000_000
                &&& quiet_ms > budget_ms ==> q.quiet == budget_ms * 1_000_000
                &&& q.generation == generation
                &&& q.quiet_since is None
            },
        },
{
}

/// What waiting for a promise does next.
#[derive(Clone, Copy, Debug, PartialEq, Eq, Structural)]
pub enum AwaitStep {
    /// It is over, with the promise settled or not.
    Over(bool),
    /// The event loop gets so many milliseconds.
    Pump(u64),
}

/// The slice after a slice: twice as long, up to the longest.
pub open spec fn next_slice(slice_ms: u64) -> u64 {
    if slice_ms < LONGEST_SLICE_MS {
        lesser(slice_ms * 2, LONGEST_SLICE_MS as int) as u64
    } else {
        slice_ms
    }
}

/// What waiting for a promise does, given the slice that is due.
pub open spec fn await_step(slice_ms: u64, done: bool, now: u128, deadline: u128) -> AwaitStep {
    if done {
        AwaitStep::Over(true)
    } else if now >= deadline {
        AwaitStep::Over(false)
    } else {
        AwaitStep::Pump(
            if slice_ms > 1 {
                slice_ms
            } else {
                1
            },
        )
    }
}

/// Waits for a promise: `done` tells whether it settled. The slices of the
/// event loop start at one millisecond and double up to the longest.
pub fn resolve_promises_until(slice_ms: &mut u64, done: bool, now: u128, deadline: u128) -> (r:
    AwaitStep)
    ensures
        r == await_step(*old(slice_ms), done, now, deadline),
        *final(slice_ms) == (if r is Pump {
            next_slice(*old(slice_ms))
        } else {
            *old(slice_ms)
        }),
{
    if done {
        return AwaitStep::Over(true);
    }
    if now >= deadline {
        return AwaitStep::Over(false);
    }
    let slice: u64 = *slice_ms;
    if slice < LONGEST_SLICE_MS {
        let doubled: u64 = slice * 2;
        *slice_ms = if doubled < LONGEST_SLICE_MS {
            doubled
        } else {
            LONGEST_SLICE_MS
        };
    }
    AwaitStep::Pump(
        if slice > 1 {
            slice
        } else {
            1
        },
    )
}

/// A promise that settled in time is never missed: it is told as settled even
/// at the deadline. And no slice is longer than the longest.
pub proof fn settled_promises_are_told(slice_ms: u64, now: u128, deadline: u128)
    requires
        slice_ms <= LONGEST_SLICE_MS,
    ensures
        await_step(slice_ms, true, now, deadline) == AwaitStep::Over(true),
        match await_step(slice_ms, false, now, deadline) {
            AwaitStep::Pump(ms) => 1 <= ms <= LONGEST_SLICE_MS && now < deadline,
            AwaitStep::Over(settled) => !settled && now >= deadline,
        },
        next_slice(slice_ms) <= LONGEST_SLICE_MS,
        slice_ms > 0 ==> next_slice(slice_ms) >= slice_ms,
{
}

/// The slices double: each is twice as long as the one before, up to fifty
/// milliseconds, and at least one. A promise that has not settled is awaited
/// for as long as the deadline is not reached.
pub proof fn slices_double_up_to_the_longest(slice_ms: u64, now: u128, deadline: u128)
    ensures
        1 <= slice_ms <= 25 ==> next_slice(slice_ms) == 2 * slice_ms,
        25 <= slice_ms <= 50 ==> next_slice(slice_ms) == 50,
        now < deadline && slice_ms >= 1 ==> await_step(slice_ms, false, now, deadline)
            == AwaitStep::Pump(slice_ms),
        now < deadline && slice_ms == 0 ==> await_step(slice_ms, false, now, deadline)
            == AwaitStep::Pump(1),
        now >= deadline ==> await_step(slice_ms, false, now, deadline) == AwaitStep::Over(false),
        await_step(slice_ms, true, now, deadline) == AwaitStep::Over(true),
{
}

/// The whole milliseconds up to a deadline, rounded up; nothing once it is
/// reached.
pub open spec fn milliseconds_left(deadline: u128, now: u128) -> Option<u64> {
    if now >= deadline {
        None
    } else {
        let ms: int = (deadline - now + 999_999) / 1_000_000;
        Some(lesser(ms, u64::MAX as int) as u64)
    }
}

/// The whole milliseconds up to a deadline, rounded up.
pub fn remaining_deadline_ms(deadline: u128, now: u128) -> (r: Option<u64>)
    ensures
        r == milliseconds_left(deadline, now),
{
    if now >= deadline {
        return None;
    }
    let left: u128 = deadline - now;
    let whole: u128 = left / MILLISECOND;
    let ms: u128 = if left % MILLISECOND != 0 {
        whole + 1
    } else {
        whole
    };
    assert(ms == (left + 999_999) / 1_000_000);
    if ms < u64::MAX as u128 {
        Some(ms as u64)
    } else {
        Some(u64::MAX)
    }
}

/// Time that is left is never told as none.
pub proof fn time_left_is_told(deadline: u128, now: u128)
    ensures
        match milliseconds_left(deadline, now) {
            Some(ms) => now < deadline && ms >= 1,
            None => now >= deadline,
        },
{
}

/// The time that is told is the least number of whole milliseconds that covers
/// what is left.
pub proof fn time_left_covers_the_deadline(deadline: u128, now: u128)
    requires
        deadline - now <= u64::MAX * 1_000_000,
    ensures
        match milliseconds_left(deadline, now) {
            Some(ms) => now + (ms - 1) * 1_000_000 < deadline <= now + ms * 1_000_000,
            None => now >= deadline,
        },
{
}

/// What the evaluation of a module does next.
#[derive(Clone, Copy, Debug, PartialEq, Eq, Structural)]
pub enum ModuleStep {
    /// The module is evaluated.
    Done,
    /// The module threw.
    Threw,
    /// The time is up.
    TimedOut,
    /// The event loop gets so many milliseconds.
    Pump(u64),
}

/// What the evaluation of a module does, given the state that the page tells:
/// one where it is done, and two where it threw.
pub fn poll_module(state: i32, now: u128, budget_end: u128) -> (r: ModuleStep)
    ensures
        r == (if state == 1 {
            ModuleStep::Done
        } else if state == 2 {
            ModuleStep::Threw
        } else if now >= budget_end {
            ModuleStep::TimedOut
        } else {
            ModuleStep::Pump(
                lesser((budget_end - now) / 1_000_000, MODULE_SLICE_MS as int) as u64,
            )
        }),
        match r {
            ModuleStep::Pump(ms) => state != 1 && state != 2 && ms <= 20 && now + ms * 1_000_000
                <= budget_end && (ms < 20 ==> now + (ms + 1) * 1_000_000 > budget_end),
            ModuleStep::TimedOut => state != 1 && state != 2 && now >= budget_end,
            ModuleStep::Done => state == 1,
            ModuleStep::Threw => state == 2,
        },
{
    if state == 1 {
        return ModuleStep::Done;
    }
    if state == 2 {
        return ModuleStep::Threw;
    }
    if now >= budget_end {
        return ModuleStep::TimedOut;
    }
    let left: u128 = (budget_end - now) / MILLISECOND;
    if left < MODULE_SLICE_MS as u128 {
        ModuleStep::Pump(left as u64)
    } else {
        ModuleStep::Pump(MODULE_SLICE_MS)
    }
}

} // verus!
