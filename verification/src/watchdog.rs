//! The watchdog over synchronous script, and what its firing makes of a result.

use vstd::prelude::*;

use crate::host::LATEST_INSTANT;
use crate::remote::{run_result, value_result, JsonValue};
use crate::text::{byte_len, byte_length, contains, contains_text};

verus! {

/// Beyond its budget a task that already runs may take so long.
pub const SYNCHRONOUS_TASK_FLOOR_MS: u64 = 5_000;

/// What the scheduling of the watchdog may take on top.
pub const WATCHDOG_SCHEDULING_MARGIN_MS: u64 = 500;

/// A script of this many bytes runs under a watchdog.
pub const GUARDED_SCRIPT_BYTES: usize = 10_000;

/// The flags that interrupt script, one for each runtime. A runtime polls its
/// own while it runs script.
pub struct InterruptFlags {
    pub raised: Vec<bool>,
}

/// A handle on a runtime, by which its script can be interrupted from
/// anywhere. Its copies are handles on the same runtime.
#[derive(Clone, Copy, Debug, PartialEq, Eq, Structural)]
pub struct QuickJsIsolateHandle {
    pub runtime: usize,
}

/// The flag of the handle's runtime; that of no runtime is down.
pub open spec fn is_raised(flags: Seq<bool>, handle: QuickJsIsolateHandle) -> bool {
    handle.runtime < flags.len() && flags[handle.runtime as int]
}

/// The flags after that of the handle's runtime is raised or taken down.
pub open spec fn with_flag(flags: Seq<bool>, handle: QuickJsIsolateHandle, up: bool) -> Seq<bool> {
    if handle.runtime < flags.len() {
        flags.update(handle.runtime as int, up)
    } else {
        flags
    }
}

impl InterruptFlags {
    /// The flags of no runtime.
    pub fn new() -> (r: Self)
        ensures
            r.raised@ == Seq::<bool>::empty(),
    {
        InterruptFlags { raised: Vec::new() }
    }

    /// A handle on a new runtime, whose flag is down.
    pub fn isolate_handle(&mut self) -> (r: QuickJsIsolateHandle)
        ensures
            r.runtime == old(self).raised@.len(),
            final(self).raised@ == old(self).raised@.push(false),
    {
        let runtime: usize = self.raised.len();
        self.raised.push(false);
        QuickJsIsolateHandle { runtime }
    }

    /// Whether the script of the handle's runtime is interrupted.
    pub fn interrupted(&self, handle: QuickJsIsolateHandle) -> (r: bool)
        ensures
            r == is_raised(self.raised@, handle),
    {
        handle.runtime < self.raised.len() && self.raised[handle.runtime]
    }

    fn write(&mut self, handle: QuickJsIsolateHandle, up: bool)
        ensures
            final(self).raised@ == with_flag(old(self).raised@, handle, up),
    {
        if handle.runtime < self.raised.len() {
            self.raised.set(handle.runtime, up);
        }
    }
}

impl QuickJsIsolateHandle {
    /// Interrupts the script that runs.
    pub fn terminate_execution(&self, flags: &mut InterruptFlags)
        ensures
            final(flags).raised@ == with_flag(old(flags).raised@, *self, true),
    {
        flags.write(*self, true);
    }

    /// Lets script run again.
    pub fn cancel_termination(&self, flags: &mut InterruptFlags)
        ensures
            final(flags).raised@ == with_flag(old(flags).raised@, *self, false),
    {
        flags.write(*self, false);
    }
}

/// A watchdog: when it fires, whether it was called off, and whether it fired.
pub struct Watchdog {
    pub deadline: u128,
    pub cancelled: bool,
    pub fired: bool,
}

/// A watchdog fires at its deadline, unless it was called off.
pub open spec fn fires(w: Watchdog, now: u128) -> bool {
    !w.cancelled && now >= w.deadline
}

/// What a watchdog does next.
#[derive(Clone, Copy, Debug, PartialEq, Eq, Structural)]
pub enum WatchdogStep {
    /// It ends.
    Ended,
    /// It waits for so many nanoseconds, or until it is called off.
    Wait(u128),
}

impl Watchdog {
    /// A watchdog that fires once the budget is used up.
    pub fn spawn_quickjs_watchdog(now: u128, budget: u128) -> (r: Self)
        requires
            now <= LATEST_INSTANT,
            budget <= LATEST_INSTANT,
        ensures
            r == (Watchdog { deadline: (now + budget) as u128, cancelled: false, fired: false }),
            r.deadline - now == budget,
            budget > 0 ==> !fires(r, now),
            fires(r, (now + budget) as u128),
    {
        Watchdog { deadline: now + budget, cancelled: false, fired: false }
    }

    /// Looks at the clock: a watchdog that is not called off fires at its
    /// deadline.
    pub fn poll(
        &mut self,
        handle: QuickJsIsolateHandle,
        flags: &mut InterruptFlags,
        now: u128,
    ) -> (r: WatchdogStep)
        ensures
            *final(self) == (Watchdog {
                fired: old(self).fired || fires(*old(self), now),
                ..*old(self)
            }),
            final(flags).raised@ == flags_after_poll(old(flags).raised@, handle, *old(self), now),
            r == (if old(self).cancelled || fires(*old(self), now) {
                WatchdogStep::Ended
            } else {
                WatchdogStep::Wait((old(self).deadline - now) as u128)
            }),
            !old(self).cancelled && now >= old(self).deadline ==> final(self).fired,
            !old(self).cancelled && now < old(self).deadline ==> final(self).fired == old(
                self,
            ).fired && (r matches WatchdogStep::Wait(n) && now + n == old(self).deadline),
            old(self).cancelled ==> *final(self) == *old(self) && r == WatchdogStep::Ended,
    {
        if self.cancelled {
            return WatchdogStep::Ended;
        }
        if now >= self.deadline {
            self.fired = true;
            handle.terminate_execution(flags);
            return WatchdogStep::Ended;
        }
        WatchdogStep::Wait(self.deadline - now)
    }

    /// Calls the watchdog off; whether it had fired.
    pub fn stop(&mut self) -> (r: bool)
        ensures
            r == old(self).fired,
            *final(self) == (Watchdog { cancelled: true, ..*old(self) }),
    {
        self.cancelled = true;
        self.fired
    }

    /// Calls the watchdog off, and lets script run again where it had fired.
    pub fn disarm_watchdog(
        &mut self,
        handle: QuickJsIsolateHandle,
        flags: &mut InterruptFlags,
    ) -> (r: bool)
        ensures
            r == old(self).fired,
            *final(self) == (Watchdog { cancelled: true, ..*old(self) }),
            final(flags).raised@ == flags_after_disarm(
                old(flags).raised@,
                handle,
                old(self).fired,
            ),
    {
        let fired: bool = self.stop();
        if fired {
            handle.cancel_termination(flags);
        }
        fired
    }
}

/// The message tells that script was interrupted.
pub open spec fn tells_interruption(message: Seq<char>) -> bool {
    contains_text(message, "interrupted"@) || contains_text(message, "execution terminated"@)
}

/// The error is the watchdog's doing.
pub open spec fn was_interrupted(fired: bool, message: Seq<char>) -> bool {
    fired || tells_interruption(message)
}

fn interrupted(fired: bool, message: &str) -> (r: bool)
    ensures
        r == was_interrupted(fired, message@),
{
    fired || contains(message, "interrupted") || contains(message, "execution terminated")
}

/// What an interrupted run comes to: nothing is wrong with it.
pub open spec fn interruption_forgiven(result: Result<(), Seq<char>>, fired: bool) -> Result<
    (),
    Seq<char>,
> {
    match result {
        Ok(u) => Ok(u),
        Err(e) => if was_interrupted(fired, e) {
            Ok(())
        } else {
            Err(e)
        },
    }
}

/// What a script with a timeout comes to, and a bounded run of the event loop.
pub fn execute_script_with_timeout(result: Result<(), String>, fired: bool) -> (r: Result<
    (),
    String,
>)
    ensures
        run_result(r) == interruption_forgiven(run_result(result), fired),
{
    match result {
        Ok(_) => Ok(()),
        Err(e) => {
            if interrupted(fired, e.as_str()) {
                Ok(())
            } else {
                Err(e)
            }
        },
    }
}

/// What a run until quiescence comes to.
pub fn quiescent_outcome(result: Result<(), String>, fired: bool) -> (r: Result<(), String>)
    ensures
        run_result(r) == (match run_result(result) {
            Ok(u) => Ok(u),
            Err(e) => if fired || contains_text(e, "execution terminated"@) {
                Ok::<(), Seq<char>>(())
            } else {
                Err(e)
            },
        }),
        fired || result is Ok ==> r is Ok,
        r matches Err(e) ==> run_result(result) == Err::<(), Seq<char>>(e@),
{
    match result {
        Ok(_) => Ok(()),
        Err(e) => {
            if fired || contains(e.as_str(), "execution terminated") {
                Ok(())
            } else {
                Err(e)
            }
        },
    }
}

/// A script runs under a watchdog from a size on.
pub fn runs_guarded(source: &str) -> (r: bool)
    ensures
        r == (byte_length(source@) >= GUARDED_SCRIPT_BYTES),
        r <==> byte_length(source@) >= 10_000,
{
    byte_len(source) >= GUARDED_SCRIPT_BYTES
}

/// What a guarded script comes to.
pub fn execute_script_guarded(result: Result<(), String>, fired: bool) -> (r: Result<(), String>)
    ensures
        run_result(r) == (if fired {
            Ok::<(), Seq<char>>(())
        } else {
            run_result(result)
        }),
        r is Err <==> !fired && result is Err,
{
    if fired {
        Ok(())
    } else {
        result
    }
}

/// What an evaluation with a timeout comes to.
pub open spec fn timed_value(
    result: Result<JsonValue<Seq<char>>, Seq<char>>,
    fired: bool,
) -> Result<JsonValue<Seq<char>>, Seq<char>> {
    match result {
        Ok(v) => if fired {
            Err("eval timed out"@)
        } else {
            Ok(v)
        },
        Err(e) => if was_interrupted(fired, e) {
            Err("eval timed out"@)
        } else {
            Err("JS error: "@ + e)
        },
    }
}

/// What an evaluation with a timeout comes to.
pub fn evaluate_with_timeout(result: Result<JsonValue<String>, String>, fired: bool) -> (r: Result<
    JsonValue<String>,
    String,
>)
    ensures
        value_result(r) == timed_value(value_result(result), fired),
{
    match result {
        Ok(v) => {
            if fired {
                Err("eval timed out".to_owned())
            } else {
                Ok(v)
            }
        },
        Err(e) => {
            if interrupted(fired, e.as_str()) {
                Err("eval timed out".to_owned())
            } else {
                let mut message: String = "JS error: ".to_owned();
                message.append(e.as_str());
                Err(message)
            }
        },
    }
}

/// The budget of the watchdog over a bounded run, in milliseconds.
pub fn bounded_watchdog_ms(budget_ms: u64) -> (r: u128)
    ensures
        r == budget_ms + SYNCHRONOUS_TASK_FLOOR_MS + WATCHDOG_SCHEDULING_MARGIN_MS,
        r == budget_ms + 5_500,
{
    budget_ms as u128 + SYNCHRONOUS_TASK_FLOOR_MS as u128 + WATCHDOG_SCHEDULING_MARGIN_MS as u128
}

/// A watchdog that was called off never fires, whatever the clock shows.
pub proof fn stopped_watchdog_stays_quiet(w: Watchdog, now: u128)
    ensures
        !fires(Watchdog { cancelled: true, ..w }, now),
{
}

/// The flags after the watchdog over a runtime looked at the clock.
pub open spec fn flags_after_poll(
    flags: Seq<bool>,
    handle: QuickJsIsolateHandle,
    w: Watchdog,
    now: u128,
) -> Seq<bool> {
    if fires(w, now) {
        with_flag(flags, handle, true)
    } else {
        flags
    }
}

/// The flags after the watchdog over a runtime is disarmed.
pub open spec fn flags_after_disarm(
    flags: Seq<bool>,
    handle: QuickJsIsolateHandle,
    fired: bool,
) -> Seq<bool> {
    if fired {
        with_flag(flags, handle, false)
    } else {
        flags
    }
}

/// Every handle on a runtime reads the one flag: where one raises it or takes
/// it down, each of them reads it so. No other runtime's flag changes, and doing
/// it again changes nothing.
pub proof fn handles_share_their_runtime_flag(
    flags: Seq<bool>,
    handle: QuickJsIsolateHandle,
    other: QuickJsIsolateHandle,
    up: bool,
)
    requires
        handle.runtime < flags.len(),
    ensures
        is_raised(with_flag(flags, handle, up), other) == (if other.runtime == handle.runtime {
            up
        } else {
            is_raised(flags, other)
        }),
        with_flag(with_flag(flags, handle, up), handle, up) == with_flag(flags, handle, up),
{
    let once: Seq<bool> = with_flag(flags, handle, up);
    assert(with_flag(once, handle, up) =~= once);
}

/// A runtime's flag that is up stays up, through new runtimes, watchdogs that
/// look at the clock and those that are disarmed, until a watchdog over that
/// runtime is disarmed that had fired.
pub proof fn raised_flag_stays_up(
    flags: Seq<bool>,
    handle: QuickJsIsolateHandle,
    other: QuickJsIsolateHandle,
    w: Watchdog,
    now: u128,
    fired: bool,
)
    requires
        is_raised(flags, handle),
    ensures
        is_raised(flags.push(false), handle),
        is_raised(flags_after_poll(flags, other, w, now), handle),
        is_raised(flags_after_disarm(flags, other, fired), handle) == !(fired && other.runtime
            == handle.runtime),
{
}

/// Arming, polling and disarming a watchdog leave the flags as they were where
/// its runtime's was down: script can run again, whether the watchdog fired or
/// not.
pub proof fn disarming_restores_the_flags(
    flags: Seq<bool>,
    handle: QuickJsIsolateHandle,
    w: Watchdog,
    now: u128,
)
    requires
        !w.fired,
        !is_raised(flags, handle),
    ensures
        flags_after_disarm(
            flags_after_poll(flags, handle, w, now),
            handle,
            w.fired || fires(w, now),
        ) == flags,
{
    assert(flags_after_disarm(
        flags_after_poll(flags, handle, w, now),
        handle,
        w.fired || fires(w, now),
    ) =~= flags);
}

/// A watchdog fires from its deadline on and not before; one that fired
/// interrupts its own runtime, and one that did not changes no flag.
pub proof fn watchdogs_fire_at_their_deadline(
    flags: Seq<bool>,
    handle: QuickJsIsolateHandle,
    w: Watchdog,
    now: u128,
)
    requires
        handle.runtime < flags.len(),
        !w.cancelled,
    ensures
        now >= w.deadline ==> is_raised(flags_after_poll(flags, handle, w, now), handle),
        now < w.deadline ==> flags_after_poll(flags, handle, w, now) == flags,
        !is_raised(flags_after_disarm(flags, handle, true), handle),
        flags_after_disarm(flags, handle, false) == flags,
{
}

/// A run that succeeded stays so. An error is forgiven where the watchdog fired
/// or the message tells an interruption, and stays as it is otherwise.
pub proof fn interruptions_are_forgiven(message: Seq<char>, fired: bool)
    ensures
        interruption_forgiven(Ok(()), fired) is Ok,
        interruption_forgiven(Err(message), true) is Ok,
        contains_text(message, "interrupted"@) ==> interruption_forgiven(Err(message), fired) is Ok,
        contains_text(message, "execution terminated"@) ==> interruption_forgiven(
            Err(message),
            fired,
        ) is Ok,
        !contains_text(message, "interrupted"@) && !contains_text(message, "execution terminated"@)
            ==> interruption_forgiven(Err(message), false) == Err::<(), Seq<char>>(message),
{
}

/// An evaluation gives its value exactly where it has one and the watchdog did
/// not fire. An interruption is told as a timeout, any other error with its
/// message.
pub proof fn timed_evaluations_give_their_value(
    value: JsonValue<Seq<char>>,
    message: Seq<char>,
    fired: bool,
)
    ensures
        timed_value(Ok(value), false) == Ok::<JsonValue<Seq<char>>, Seq<char>>(value),
        timed_value(Ok(value), true) == Err::<JsonValue<Seq<char>>, Seq<char>>("eval timed out"@),
        timed_value(Err(message), true) == Err::<JsonValue<Seq<char>>, Seq<char>>(
            "eval timed out"@,
        ),
        contains_text(message, "interrupted"@) || contains_text(message, "execution terminated"@)
            ==> timed_value(Err(message), fired) == Err::<JsonValue<Seq<char>>, Seq<char>>(
            "eval timed out"@,
        ),
        !contains_text(message, "interrupted"@) && !contains_text(message, "execution terminated"@)
            ==> timed_value(Err(message), false) == Err::<JsonValue<Seq<char>>, Seq<char>>(
            "JS error: "@ + message,
        ),
{
}

} // verus!
