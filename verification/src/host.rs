//! The host side of the event loop: timers, posted tasks, requests under way,
//! and what a turn of the loop does next. Instants are nanoseconds of one
//! clock.

use vstd::prelude::*;

verus! {

/// The latest instant that the clock shows.
pub const LATEST_INSTANT: u128 = 0x1_0000_0000_0000_0000_0000_0000;

/// The nanoseconds of a millisecond.
pub const MILLISECOND: u128 = 1_000_000;

/// The longest delay of a timer.
pub const LONGEST_DELAY: u128 = 86_400_000_000_000;

/// How soon a request under way is looked at again.
pub const FETCH_POLL: u128 = 5_000_000;

/// Timers, posted tasks and requests under way. A timer is its id and the
/// instant at which it is due; posted tasks and requests are known by a number.
pub struct HostLoop {
    pub next_timer_id: u32,
    pub timers: Vec<(u32, u128)>,
    pub posted: Vec<u64>,
    pub next_fetch_id: u64,
    pub fetches: Vec<u64>,
}

/// The timers stand in the order of their ids.
pub open spec fn ascending(timers: Seq<(u32, u128)>) -> bool {
    forall|i: int, j: int|
        0 <= i < j < timers.len() ==> (#[trigger] timers[i]).0 < (#[trigger] timers[j]).0
}

/// The numbers stand in order.
pub open spec fn ascending_ids(ids: Seq<u64>) -> bool {
    forall|i: int, j: int| 0 <= i < j < ids.len() ==> #[trigger] ids[i] < #[trigger] ids[j]
}

/// When the timer with this id is due.
pub open spec fn due_at(timers: Seq<(u32, u128)>, id: u32) -> Option<u128>
    decreases timers.len(),
{
    if timers.len() == 0 {
        None
    } else if timers.last().0 == id {
        Some(timers.last().1)
    } else {
        due_at(timers.drop_last(), id)
    }
}

/// The ids of the timers that are due, in order.
pub open spec fn due_ids(timers: Seq<(u32, u128)>, now: u128) -> Seq<u32>
    decreases timers.len(),
{
    if timers.len() == 0 {
        Seq::empty()
    } else if timers.last().1 <= now {
        due_ids(timers.drop_last(), now).push(timers.last().0)
    } else {
        due_ids(timers.drop_last(), now)
    }
}

/// The timers that are not due yet.
pub open spec fn not_due(timers: Seq<(u32, u128)>, now: u128) -> Seq<(u32, u128)>
    decreases timers.len(),
{
    if timers.len() == 0 {
        Seq::empty()
    } else if timers.last().1 <= now {
        not_due(timers.drop_last(), now)
    } else {
        not_due(timers.drop_last(), now).push(timers.last())
    }
}

/// The instant at which the next timer is due.
pub open spec fn earliest(timers: Seq<(u32, u128)>) -> Option<u128>
    decreases timers.len(),
{
    if timers.len() == 0 {
        None
    } else {
        match earliest(timers.drop_last()) {
            Some(d) => Some(
                if timers.last().1 < d {
                    timers.last().1
                } else {
                    d
                },
            ),
            None => Some(timers.last().1),
        }
    }
}

/// The id after `id`; none is zero.
pub open spec fn following_timer(id: u32) -> u32 {
    if id == u32::MAX {
        1
    } else {
        (id + 1) as u32
    }
}

/// The id after `id`; none is zero.
pub open spec fn following_fetch(id: u64) -> u64 {
    if id == u64::MAX {
        1
    } else {
        (id + 1) as u64
    }
}

proof fn due_at_is_there(timers: Seq<(u32, u128)>, id: u32)
    ensures
        match due_at(timers, id) {
            Some(d) => exists|i: int| 0 <= i < timers.len() && #[trigger] timers[i] == (id, d),
            None => forall|i: int| 0 <= i < timers.len() ==> (#[trigger] timers[i]).0 != id,
        },
    decreases timers.len(),
{
    if timers.len() > 0 {
        let front: Seq<(u32, u128)> = timers.drop_last();
        let last: int = timers.len() - 1;
        due_at_is_there(front, id);
        if timers.last().0 == id {
            assert(timers[last] == (id, timers.last().1));
        } else {
            match due_at(front, id) {
                Some(d) => {
                    let i: int = choose|i: int|
                        0 <= i < front.len() && #[trigger] front[i] == (id, d);
                    assert(timers[i] == (id, d));
                },
                None => {
                    assert forall|i: int| 0 <= i < timers.len() implies (#[trigger] timers[i]).0
                        != id by {
                        if i < last {
                            assert(front[i].0 != id);
                        }
                    }
                },
            }
        }
    }
}

proof fn due_at_by_index(timers: Seq<(u32, u128)>, i: int)
    requires
        ascending(timers),
        0 <= i < timers.len(),
    ensures
        due_at(timers, timers[i].0) == Some(timers[i].1),
{
    due_at_is_there(timers, timers[i].0);
}

proof fn same_timers(a: Seq<(u32, u128)>, b: Seq<(u32, u128)>, id: u32)
    requires
        ascending(a),
        ascending(b),
        forall|i: int|
            0 <= i < a.len() && (#[trigger] a[i]).0 == id ==> exists|j: int|
                0 <= j < b.len() && #[trigger] b[j] == a[i],
        forall|i: int|
            0 <= i < b.len() && (#[trigger] b[i]).0 == id ==> exists|j: int|
                0 <= j < a.len() && #[trigger] a[j] == b[i],
    ensures
        due_at(a, id) == due_at(b, id),
{
    due_at_is_there(a, id);
    due_at_is_there(b, id);
    match due_at(a, id) {
        Some(d) => {
            let i: int = choose|i: int| 0 <= i < a.len() && #[trigger] a[i] == (id, d);
            assert(a[i].0 == id);
            let j: int = choose|j: int| 0 <= j < b.len() && #[trigger] b[j] == a[i];
            due_at_by_index(b, j);
        },
        None => {
            match due_at(b, id) {
                Some(d) => {
                    let i: int = choose|i: int| 0 <= i < b.len() && #[trigger] b[i] == (id, d);
                    assert(b[i].0 == id);
                    let j: int = choose|j: int| 0 <= j < a.len() && #[trigger] a[j] == b[i];
                    assert(a[j].0 == id);
                },
                None => {},
            }
        },
    }
}

/// What a turn of the loop does next.
#[derive(Clone, Copy, Debug, PartialEq, Eq, Structural)]
pub enum LoopAction {
    /// The loop ends.
    Return,
    /// The next turn follows at once.
    Again,
    /// It waits for a reply of the network, until an instant at the latest.
    AwaitFetch(u128),
    /// It sleeps until an instant.
    Sleep(u128),
}

/// What a cooperative turn does once the work that was ready is done.
#[derive(Clone, Copy, Debug, PartialEq, Eq, Structural)]
pub enum TickStep {
    /// Nothing is left to do.
    Idle,
    /// It sleeps for so many nanoseconds, and does what is ready then.
    Sleep(u128),
    /// It is over, with work left.
    More,
}

/// What a turn of the loop does next. `progress` tells whether the turn did
/// anything.
pub open spec fn turn_action(
    host: HostLoop,
    progress: bool,
    now: u128,
    budget_end: u128,
) -> LoopAction {
    let timer: Option<u128> = earliest(host.timers@);
    if now >= budget_end {
        LoopAction::Return
    } else if progress || host.posted@.len() > 0 || due_ids(host.timers@, now).len() > 0 {
        LoopAction::Again
    } else if host.fetches@.len() > 0 {
        LoopAction::AwaitFetch(
            match timer {
                Some(d) => if d < budget_end {
                    d
                } else {
                    budget_end
                },
                None => budget_end,
            },
        )
    } else {
        match timer {
            Some(d) => if d > budget_end {
                LoopAction::Return
            } else {
                LoopAction::Sleep(d)
            },
            None => LoopAction::Return,
        }
    }
}

/// The instant at which to look again: the next timer, or a moment later where
/// a request is under way.
pub open spec fn wait_instant(host: HostLoop, now: u128) -> Option<u128> {
    if host.fetches@.len() > 0 {
        let soon: u128 = (now + FETCH_POLL) as u128;
        match earliest(host.timers@) {
            Some(d) => Some(
                if d < soon {
                    d
                } else {
                    soon
                },
            ),
            None => Some(soon),
        }
    } else {
        earliest(host.timers@)
    }
}

impl HostLoop {
    /// The timers and the requests are in order.
    pub open spec fn wf(self) -> bool {
        ascending(self.timers@) && ascending_ids(self.fetches@)
    }

    /// A loop that never had anything to do.
    pub open spec fn empty(self) -> bool {
        &&& self.next_timer_id == 0
        &&& self.timers@.len() == 0
        &&& self.posted@.len() == 0
        &&& self.next_fetch_id == 0
        &&& self.fetches@.len() == 0
    }

    /// A loop with nothing to do.
    pub fn new() -> (r: Self)
        ensures
            r.wf(),
            r.empty(),
    {
        HostLoop {
            next_timer_id: 0,
            timers: Vec::new(),
            posted: Vec::new(),
            next_fetch_id: 0,
            fetches: Vec::new(),
        }
    }

    /// Sets a timer, and gives its id. A timer that still runs under this id
    /// makes way.
    pub fn queue_timer(&mut self, now: u128, delay: u128) -> (r: u32)
        requires
            old(self).wf(),
            now <= LATEST_INSTANT,
            delay <= LONGEST_DELAY,
        ensures
            final(self).wf(),
            r == following_timer(old(self).next_timer_id),
            r != 0,
            final(self).next_timer_id == r,
            forall|id: u32| #[trigger]
                due_at(final(self).timers@, id) == (if id == r {
                    Some((now + delay) as u128)
                } else {
                    due_at(old(self).timers@, id)
                }),
            due_at(final(self).timers@, r) matches Some(at) && at - now == delay,
            final(self).posted == old(self).posted,
            final(self).next_fetch_id == old(self).next_fetch_id,
            final(self).fetches == old(self).fetches,
    {
        let id: u32 = if self.next_timer_id == u32::MAX {
            1
        } else {
            self.next_timer_id + 1
        };
        self.next_timer_id = id;
        self.cancel_timer(id);
        let ghost kept = self.timers@;
        let mut at: usize = 0;
        while at < self.timers.len() && self.timers[at].0 < id
            invariant
                at <= self.timers@.len(),
                forall|j: int| 0 <= j < at ==> (#[trigger] self.timers@[j]).0 < id,
            decreases self.timers@.len() - at,
        {
            at = at + 1;
        }
        let deadline: u128 = now + delay;
        self.timers.insert(at, (id, deadline));
        proof {
            let all: Seq<(u32, u128)> = self.timers@;
            assert(all == kept.insert(at as int, (id, deadline)));
            due_at_is_there(kept, id);
            assert forall|i: int, j: int| 0 <= i < j < all.len() implies (#[trigger] all[i]).0 < (
            #[trigger] all[j]).0 by {
                let p: int = if i < at {
                    i
                } else {
                    i - 1
                };
                let q: int = if j < at {
                    j
                } else {
                    j - 1
                };
                if i != at && j != at {
                    assert(kept[p].0 < kept[q].0);
                } else if i == at {
                    assert(kept[at as int].0 > id) by {
                        assert(kept[at as int].0 != id);
                    }
                    if q > at {
                        assert(kept[at as int].0 < kept[q].0);
                    }
                } else {
                    assert(kept[i].0 < id);
                }
            }
            assert forall|k: int| 0 <= k < kept.len() implies exists|j: int|
                0 <= j < all.len() && #[trigger] all[j] == #[trigger] kept[k] by {
                assert(all[if k < at {
                    k
                } else {
                    k + 1
                }] == kept[k]);
            }
            due_at_by_index(all, at as int);
            assert forall|k: u32| #[trigger]
                due_at(all, k) == (if k == id {
                    Some(deadline)
                } else {
                    due_at(kept, k)
                }) by {
                if k != id {
                    assert forall|i: int| 0 <= i < all.len() && (#[trigger] all[i]).0
                        == k implies exists|j: int|
                        0 <= j < kept.len() && #[trigger] kept[j] == all[i] by {
                        assert(kept[if i < at {
                            i
                        } else {
                            i - 1
                        }] == all[i]);
                    }
                    same_timers(all, kept, k);
                }
            }
        }
        id
    }

    /// Takes a timer back.
    pub fn cancel_timer(&mut self, id: u32)
        requires
            old(self).wf(),
        ensures
            final(self).wf(),
            due_at(final(self).timers@, id) is None,
            forall|k: u32|
                k != id ==> #[trigger] due_at(final(self).timers@, k) == due_at(
                    old(self).timers@,
                    k,
                ),
            final(self).next_timer_id == old(self).next_timer_id,
            final(self).posted == old(self).posted,
            final(self).next_fetch_id == old(self).next_fetch_id,
            final(self).fetches == old(self).fetches,
    {
        let ghost before = self.timers@;
        let mut i: usize = 0;
        while i < self.timers.len()
            invariant
                i <= self.timers@.len(),
                self.timers@ == before,
                ascending(before),
                self.wf(),
                self.next_timer_id == old(self).next_timer_id,
                self.posted == old(self).posted,
                self.next_fetch_id == old(self).next_fetch_id,
                self.fetches == old(self).fetches,
                old(self).timers@ == before,
                forall|j: int| 0 <= j < i ==> (#[trigger] before[j]).0 != id,
            decreases self.timers@.len() - i,
        {
            if self.timers[i].0 == id {
                let _ = self.timers.remove(i);
                proof {
                    let all: Seq<(u32, u128)> = self.timers@;
                    assert(all == before.remove(i as int));
                    assert forall|a: int, b: int| 0 <= a < b < all.len() implies (#[trigger]
                    all[a]).0 < (#[trigger] all[b]).0 by {
                        let p: int = if a < i {
                            a
                        } else {
                            a + 1
                        };
                        let q: int = if b < i {
                            b
                        } else {
                            b + 1
                        };
                        assert(before[p].0 < before[q].0);
                    }
                    due_at_is_there(all, id);
                    assert forall|a: int| 0 <= a < all.len() implies (#[trigger] all[a]).0 != id by {
                        let p: int = if a < i {
                            a
                        } else {
                            a + 1
                        };
                        assert(before[p] == all[a]);
                        if p < i {
                            assert(before[p].0 < before[i as int].0);
                        } else {
                            assert(before[i as int].0 < before[p].0);
                        }
                    }
                    assert forall|k: u32| k != id implies #[trigger] due_at(all, k) == due_at(
                        before,
                        k,
                    ) by {
                        assert forall|a: int| 0 <= a < all.len() && (#[trigger] all[a]).0
                            == k implies exists|j: int|
                            0 <= j < before.len() && #[trigger] before[j] == all[a] by {
                            assert(before[if a < i {
                                a
                            } else {
                                a + 1
                            }] == all[a]);
                        }
                        assert forall|a: int| 0 <= a < before.len() && (#[trigger] before[a]).0
                            == k implies exists|j: int|
                            0 <= j < all.len() && #[trigger] all[j] == before[a] by {
                            assert(all[if a < i {
                                a
                            } else {
                                a - 1
                            }] == before[a]);
                        }
                        same_timers(all, before, k);
                    }
                }
                return;
            }
            i = i + 1;
        }
        proof {
            due_at_is_there(before, id);
        }
    }

    /// Takes the timers that are due; their ids come in order.
    pub fn take_due(&mut self, now: u128) -> (r: Vec<u32>)
        requires
            old(self).wf(),
        ensures
            final(self).wf(),
            r@ == due_ids(old(self).timers@, now),
            final(self).timers@ == not_due(old(self).timers@, now),
            final(self).next_timer_id == old(self).next_timer_id,
            final(self).posted == old(self).posted,
            final(self).next_fetch_id == old(self).next_fetch_id,
            final(self).fetches == old(self).fetches,
    {
        let mut due: Vec<u32> = Vec::new();
        let mut rest: Vec<(u32, u128)> = Vec::new();
        let mut i: usize = 0;
        let ghost all = self.timers@;
        assert(all.take(0) =~= Seq::<(u32, u128)>::empty());
        while i < self.timers.len()
            invariant
                i <= self.timers@.len(),
                all == self.timers@,
                *self == *old(self),
                due@ == due_ids(all.take(i as int), now),
                rest@ == not_due(all.take(i as int), now),
            decreases self.timers@.len() - i,
        {
            assert(all.take(i + 1).drop_last() =~= all.take(i as int));
            assert(all.take(i + 1).last() == all[i as int]);
            let (id, deadline) = self.timers[i];
            if deadline <= now {
                due.push(id);
            } else {
                rest.push((id, deadline));
            }
            i = i + 1;
        }
        assert(all.take(all.len() as int) =~= all);
        proof {
            not_due_is_ascending(all, now);
        }
        self.timers = rest;
        due
    }

    /// The instant at which the next timer is due.
    pub fn next_deadline(&self) -> (r: Option<u128>)
        ensures
            r == earliest(self.timers@),
    {
        let mut best: Option<u128> = None;
        let mut i: usize = 0;
        let ghost all = self.timers@;
        assert(all.take(0) =~= Seq::<(u32, u128)>::empty());
        while i < self.timers.len()
            invariant
                i <= self.timers@.len(),
                all == self.timers@,
                best == earliest(all.take(i as int)),
            decreases self.timers@.len() - i,
        {
            assert(all.take(i + 1).drop_last() =~= all.take(i as int));
            assert(all.take(i + 1).last() == all[i as int]);
            let d: u128 = self.timers[i].1;
            best = match best {
                Some(b) => if d < b {
                    Some(d)
                } else {
                    Some(b)
                },
                None => Some(d),
            };
            i = i + 1;
        }
        assert(all.take(all.len() as int) =~= all);
        best
    }

    /// Whether a timer is due.
    pub fn has_due(&self, now: u128) -> (r: bool)
        ensures
            r == (due_ids(self.timers@, now).len() > 0),
    {
        let mut i: usize = 0;
        let ghost all = self.timers@;
        assert(all.take(0) =~= Seq::<(u32, u128)>::empty());
        while i < self.timers.len()
            invariant
                i <= self.timers@.len(),
                all == self.timers@,
                due_ids(all.take(i as int), now).len() == 0,
            decreases self.timers@.len() - i,
        {
            assert(all.take(i + 1).drop_last() =~= all.take(i as int));
            assert(all.take(i + 1).last() == all[i as int]);
            if self.timers[i].1 <= now {
                proof {
                    more_timers_more_due(all, i + 1, now);
                }
                return true;
            }
            i = i + 1;
        }
        assert(all.take(all.len() as int) =~= all);
        false
    }

    /// Puts a task behind those that are posted.
    pub fn push_posted(&mut self, task: u64)
        ensures
            final(self).posted@ == old(self).posted@.push(task),
            final(self).next_timer_id == old(self).next_timer_id,
            final(self).timers == old(self).timers,
            final(self).next_fetch_id == old(self).next_fetch_id,
            final(self).fetches == old(self).fetches,
    {
        self.posted.push(task);
    }

    /// Takes the task that was posted first.
    pub fn pop_posted(&mut self) -> (r: Option<u64>)
        ensures
            match r {
                Some(t) => old(self).posted@.len() > 0 && t == old(self).posted@[0]
                    && final(self).posted@ == old(self).posted@.skip(1),
                None => old(self).posted@.len() == 0 && final(self).posted@.len() == 0,
            },
            final(self).next_timer_id == old(self).next_timer_id,
            final(self).timers == old(self).timers,
            final(self).next_fetch_id == old(self).next_fetch_id,
            final(self).fetches == old(self).fetches,
    {
        if self.posted.len() == 0 {
            return None;
        }
        let t: u64 = self.posted.remove(0);
        assert(self.posted@ =~= old(self).posted@.skip(1));
        Some(t)
    }

    /// Whether a task is posted.
    pub fn has_posted(&self) -> (r: bool)
        ensures
            r == (self.posted@.len() > 0),
    {
        self.posted.len() > 0
    }

    /// Takes up a request, and gives its number.
    pub fn push_fetch(&mut self) -> (r: u64)
        requires
            old(self).wf(),
        ensures
            final(self).wf(),
            r == following_fetch(old(self).next_fetch_id),
            r != 0,
            final(self).next_fetch_id == r,
            forall|id: u64| #[trigger]
                final(self).fetches@.contains(id) <==> id == r || old(self).fetches@.contains(id),
            final(self).next_timer_id == old(self).next_timer_id,
            final(self).timers == old(self).timers,
            final(self).posted == old(self).posted,
    {
        let id: u64 = if self.next_fetch_id == u64::MAX {
            1
        } else {
            self.next_fetch_id + 1
        };
        self.next_fetch_id = id;
        let ghost before = self.fetches@;
        let mut at: usize = 0;
        while at < self.fetches.len() && self.fetches[at] < id
            invariant
                at <= self.fetches@.len(),
                self.fetches@ == before,
                forall|j: int| 0 <= j < at ==> #[trigger] before[j] < id,
            decreases self.fetches@.len() - at,
        {
            at = at + 1;
        }
        if at < self.fetches.len() && self.fetches[at] == id {
            assert(before.contains(id));
            return id;
        }
        self.fetches.insert(at, id);
        proof {
            let all: Seq<u64> = self.fetches@;
            assert(all == before.insert(at as int, id));
            assert forall|i: int, j: int| 0 <= i < j < all.len() implies #[trigger] all[i]
                < #[trigger] all[j] by {
                let p: int = if i < at {
                    i
                } else {
                    i - 1
                };
                let q: int = if j < at {
                    j
                } else {
                    j - 1
                };
                if i != at && j != at {
                    assert(before[p] < before[q]);
                } else if i == at {
                    if q > at {
                        assert(before[at as int] < before[q]);
                    }
                } else {
                    assert(before[i] < id);
                }
            }
            assert forall|k: u64| #[trigger] all.contains(k) <==> k == id || before.contains(k) by {
                if all.contains(k) && k != id {
                    let i: int = choose|i: int| 0 <= i < all.len() && all[i] == k;
                    assert(before[if i < at {
                        i
                    } else {
                        i - 1
                    }] == k);
                }
                if before.contains(k) {
                    let i: int = choose|i: int| 0 <= i < before.len() && before[i] == k;
                    assert(all[if i < at {
                        i
                    } else {
                        i + 1
                    }] == k);
                }
                assert(all[at as int] == id);
            }
        }
        id
    }

    /// Closes a request; whether it was under way.
    pub fn take_fetch(&mut self, id: u64) -> (r: bool)
        requires
            old(self).wf(),
        ensures
            final(self).wf(),
            r == old(self).fetches@.contains(id),
            !r ==> *final(self) == *old(self),
            forall|k: u64| #[trigger]
                final(self).fetches@.contains(k) <==> k != id && old(self).fetches@.contains(k),
            final(self).next_timer_id == old(self).next_timer_id,
            final(self).timers == old(self).timers,
            final(self).posted == old(self).posted,
            final(self).next_fetch_id == old(self).next_fetch_id,
    {
        let ghost before = self.fetches@;
        let mut i: usize = 0;
        while i < self.fetches.len()
            invariant
                i <= self.fetches@.len(),
                self.fetches@ == before,
                *self == *old(self),
                old(self).wf(),
                before == old(self).fetches@,
                forall|j: int| 0 <= j < i ==> #[trigger] before[j] != id,
            decreases self.fetches@.len() - i,
        {
            if self.fetches[i] == id {
                let _ = self.fetches.remove(i);
                proof {
                    let all: Seq<u64> = self.fetches@;
                    assert(all == before.remove(i as int));
                    assert(before[i as int] == id);
                    assert forall|a: int, b: int| 0 <= a < b < all.len() implies #[trigger] all[a]
                        < #[trigger] all[b] by {
                        let p: int = if a < i {
                            a
                        } else {
                            a + 1
                        };
                        let q: int = if b < i {
                            b
                        } else {
                            b + 1
                        };
                        assert(before[p] < before[q]);
                    }
                    assert forall|k: u64| #[trigger] all.contains(k) <==> k != id
                        && before.contains(k) by {
                        if all.contains(k) {
                            let a: int = choose|a: int| 0 <= a < all.len() && all[a] == k;
                            let p: int = if a < i {
                                a
                            } else {
                                a + 1
                            };
                            assert(before[p] == k);
                            if p > i {
                                assert(before[i as int] < before[p]);
                            }
                        }
                        if k != id && before.contains(k) {
                            let p: int = choose|p: int| 0 <= p < before.len() && before[p] == k;
                            assert(all[if p < i {
                                p
                            } else {
                                p - 1
                            }] == k);
                        }
                    }
                }
                return true;
            }
            i = i + 1;
        }
        false
    }

    /// Whether a request is under way.
    pub fn has_fetch(&self) -> (r: bool)
        ensures
            r == (self.fetches@.len() > 0),
    {
        self.fetches.len() > 0
    }

    /// Whether nothing is left to do, neither here nor in the engine.
    pub fn is_idle(&self, jobs: bool) -> (r: bool)
        ensures
            r == (!jobs && self.timers@.len() == 0 && self.posted@.len() == 0 && self.fetches@.len()
                == 0),
    {
        !jobs && self.timers.len() == 0 && self.posted.len() == 0 && self.fetches.len() == 0
    }

    /// The instant at which to look again: the next timer, or a moment later
    /// where a request is under way.
    pub fn next_wait_instant(&self, now: u128) -> (r: Option<u128>)
        requires
            now <= LATEST_INSTANT,
        ensures
            r == wait_instant(*self, now),
    {
        let timer: Option<u128> = self.next_deadline();
        if self.fetches.len() > 0 {
            let soon: u128 = now + FETCH_POLL;
            match timer {
                Some(d) => if d < soon {
                    Some(d)
                } else {
                    Some(soon)
                },
                None => Some(soon),
            }
        } else {
            timer
        }
    }

    /// What a cooperative turn does once the work that was ready is done;
    /// `jobs` tells whether the engine has work left.
    pub fn run_cooperative_event_loop_tick(&self, jobs: bool, now: u128) -> (r: TickStep)
        requires
            now <= LATEST_INSTANT,
        ensures
            r == (if !jobs && self.timers@.len() == 0 && self.posted@.len() == 0
                && self.fetches@.len() == 0 {
                TickStep::Idle
            } else {
                match wait_instant(*self, now) {
                    Some(d) => TickStep::Sleep(
                        if d > now {
                            (d - now) as u128
                        } else {
                            0
                        },
                    ),
                    None => TickStep::More,
                }
            }),
            r == TickStep::Idle ==> !jobs && self.timers@.len() == 0 && self.fetches@.len() == 0,
            self.timers@.len() > 0 || self.fetches@.len() > 0 ==> r is Sleep,
            r matches TickStep::Sleep(n) ==> {
                &&& self.fetches@.len() > 0 ==> n <= 5_000_000
                &&& forall|i: int|
                    0 <= i < self.timers@.len() && (#[trigger] self.timers@[i]).1 > now ==> now + n
                        <= self.timers@[i].1
                &&& n > 0 && self.fetches@.len() == 0 ==> exists|i: int|
                    0 <= i < self.timers@.len() && (#[trigger] self.timers@[i]).1 == now + n
            },
    {
        proof {
            waits_end_with_the_next_timer(*self, now);
        }
        if self.is_idle(jobs) {
            return TickStep::Idle;
        }
        match self.next_wait_instant(now) {
            Some(d) => TickStep::Sleep(
                if d > now {
                    d - now
                } else {
                    0
                },
            ),
            None => TickStep::More,
        }
    }

    /// What a turn of a bounded run does next.
    pub fn run_event_loop_bounded(
        &self,
        progress: bool,
        now: u128,
        budget_end: u128,
    ) -> (r: LoopAction)
        ensures
            r == turn_action(*self, progress, now, budget_end),
    {
        if now >= budget_end {
            return LoopAction::Return;
        }
        if progress || self.has_posted() || self.has_due(now) {
            return LoopAction::Again;
        }
        let timer: Option<u128> = self.next_deadline();
        if self.has_fetch() {
            return LoopAction::AwaitFetch(
                match timer {
                    Some(d) => if d < budget_end {
                        d
                    } else {
                        budget_end
                    },
                    None => budget_end,
                },
            );
        }
        match timer {
            Some(d) => if d > budget_end {
                LoopAction::Return
            } else {
                LoopAction::Sleep(d)
            },
            None => LoopAction::Return,
        }
    }
}

proof fn not_due_is_ascending(timers: Seq<(u32, u128)>, now: u128)
    requires
        ascending(timers),
    ensures
        ascending(not_due(timers, now)),
        forall|i: int|
            0 <= i < not_due(timers, now).len() ==> exists|j: int|
                0 <= j < timers.len() && #[trigger] timers[j] == #[trigger] not_due(
                    timers,
                    now,
                )[i],
    decreases timers.len(),
{
    if timers.len() > 0 {
        let front: Seq<(u32, u128)> = timers.drop_last();
        assert(ascending(front)) by {
            assert forall|i: int, j: int| 0 <= i < j < front.len() implies (#[trigger] front[i]).0
                < (#[trigger] front[j]).0 by {
                assert(timers[i].0 < timers[j].0);
            }
        }
        not_due_is_ascending(front, now);
        let kept: Seq<(u32, u128)> = not_due(front, now);
        let all: Seq<(u32, u128)> = not_due(timers, now);
        assert forall|i: int| 0 <= i < kept.len() implies exists|j: int|
            0 <= j < front.len() && #[trigger] timers[j] == #[trigger] kept[i] by {
            let j: int = choose|j: int| 0 <= j < front.len() && #[trigger] front[j] == kept[i];
            assert(timers[j] == kept[i]);
        }
        if timers.last().1 > now {
            assert forall|i: int, j: int| 0 <= i < j < all.len() implies (#[trigger] all[i]).0 < (
            #[trigger] all[j]).0 by {
                if j < kept.len() {
                    assert(kept[i].0 < kept[j].0);
                } else {
                    let k: int = choose|k: int|
                        0 <= k < front.len() && #[trigger] timers[k] == kept[i];
                    assert(timers[k].0 < timers[timers.len() - 1].0);
                }
            }
            assert forall|i: int| 0 <= i < all.len() implies exists|j: int|
                0 <= j < timers.len() && #[trigger] timers[j] == #[trigger] all[i] by {
                if i < kept.len() {
                    assert(all[i] == kept[i]);
                } else {
                    assert(timers[timers.len() - 1] == all[i]);
                }
            }
        }
    }
}

proof fn more_timers_more_due(timers: Seq<(u32, u128)>, n: int, now: u128)
    requires
        0 <= n <= timers.len(),
        due_ids(timers.take(n), now).len() > 0,
    ensures
        due_ids(timers, now).len() > 0,
    decreases timers.len() - n,
{
    if n < timers.len() {
        assert(timers.take(n + 1).drop_last() =~= timers.take(n));
        more_timers_more_due(timers, n + 1, now);
    } else {
        assert(timers.take(n) =~= timers);
    }
}

proof fn due_or_not(timers: Seq<(u32, u128)>, now: u128, id: u32)
    requires
        ascending(timers),
    ensures
        due_ids(timers, now).contains(id) <==> (due_at(timers, id) matches Some(d) && d <= now),
        due_at(not_due(timers, now), id) == (match due_at(timers, id) {
            Some(d) => if d <= now {
                None
            } else {
                Some(d)
            },
            None => None,
        }),
    decreases timers.len(),
{
    if timers.len() > 0 {
        let front: Seq<(u32, u128)> = timers.drop_last();
        let last: (u32, u128) = timers.last();
        assert forall|i: int, j: int| 0 <= i < j < front.len() implies (#[trigger] front[i]).0 < (
        #[trigger] front[j]).0 by {
            assert(timers[i].0 < timers[j].0);
        }
        due_or_not(front, now, id);
        due_at_is_there(front, id);
        if last.0 == id {
            assert forall|i: int| 0 <= i < front.len() implies (#[trigger] front[i]).0 != id by {
                assert(timers[i].0 < timers[timers.len() - 1].0);
            }
            assert(due_at(front, id) is None);
        }
        if last.1 <= now {
            let ids: Seq<u32> = due_ids(front, now);
            assert(due_ids(timers, now) == ids.push(last.0));
            assert(ids.push(last.0)[ids.len() as int] == last.0);
            if ids.contains(id) {
                let i: int = choose|i: int| 0 <= i < ids.len() && ids[i] == id;
                assert(ids.push(last.0)[i] == id);
            }
        } else {
            let rest: Seq<(u32, u128)> = not_due(front, now);
            assert(rest.push(last).drop_last() =~= rest);
        }
    } else {
        assert(!due_ids(timers, now).contains(id));
    }
}

/// A timer fires once, and not before it is due: it is taken exactly where it
/// runs and its instant has come, and then runs no more.
pub proof fn timers_fire_once_they_are_due(host: HostLoop, now: u128, id: u32)
    requires
        host.wf(),
    ensures
        due_ids(host.timers@, now).contains(id) <==> (due_at(host.timers@, id) matches Some(d) && d
            <= now),
        due_ids(host.timers@, now).contains(id) ==> due_at(not_due(host.timers@, now), id) is None,
        !due_ids(host.timers@, now).contains(id) ==> due_at(not_due(host.timers@, now), id)
            == due_at(host.timers@, id),
{
    due_or_not(host.timers@, now, id);
}

/// Timers that are due fire in the order in which they were set.
pub proof fn timers_fire_in_order(host: HostLoop, now: u128, i: int, j: int)
    requires
        host.wf(),
        0 <= i < j < due_ids(host.timers@, now).len(),
    ensures
        due_ids(host.timers@, now)[i] < due_ids(host.timers@, now)[j],
{
    due_ids_ascend(host.timers@, now);
}

proof fn due_ids_ascend(timers: Seq<(u32, u128)>, now: u128)
    requires
        ascending(timers),
    ensures
        forall|i: int, j: int|
            0 <= i < j < due_ids(timers, now).len() ==> (#[trigger] due_ids(timers, now)[i])
                < #[trigger] due_ids(timers, now)[j],
        forall|i: int|
            0 <= i < due_ids(timers, now).len() ==> exists|k: int|
                0 <= k < timers.len() && (#[trigger] timers[k]).0 == #[trigger] due_ids(
                    timers,
                    now,
                )[i],
    decreases timers.len(),
{
    if timers.len() > 0 {
        let front: Seq<(u32, u128)> = timers.drop_last();
        assert forall|i: int, j: int| 0 <= i < j < front.len() implies (#[trigger] front[i]).0 < (
        #[trigger] front[j]).0 by {
            assert(timers[i].0 < timers[j].0);
        }
        due_ids_ascend(front, now);
        let ids: Seq<u32> = due_ids(front, now);
        let all: Seq<u32> = due_ids(timers, now);
        assert forall|i: int| 0 <= i < ids.len() implies exists|k: int|
            0 <= k < front.len() && (#[trigger] timers[k]).0 == #[trigger] ids[i] by {
            let k: int = choose|k: int| 0 <= k < front.len() && (#[trigger] front[k]).0 == ids[i];
            assert(timers[k].0 == ids[i]);
        }
        if timers.last().1 <= now {
            assert forall|i: int, j: int| 0 <= i < j < all.len() implies (#[trigger] all[i])
                < #[trigger] all[j] by {
                if j < ids.len() {
                    assert(ids[i] < ids[j]);
                } else {
                    let k: int = choose|k: int|
                        0 <= k < front.len() && (#[trigger] timers[k]).0 == ids[i];
                    assert(timers[k].0 < timers[timers.len() - 1].0);
                }
            }
            assert forall|i: int| 0 <= i < all.len() implies exists|k: int|
                0 <= k < timers.len() && (#[trigger] timers[k]).0 == #[trigger] all[i] by {
                if i < ids.len() {
                    assert(all[i] == ids[i]);
                } else {
                    assert(timers[timers.len() - 1].0 == all[i]);
                }
            }
        }
    }
}

/// A bounded run never waits past the end of its budget, and only goes on
/// before it.
pub proof fn bounded_runs_keep_their_budget(
    host: HostLoop,
    progress: bool,
    now: u128,
    budget_end: u128,
)
    ensures
        now >= budget_end ==> turn_action(host, progress, now, budget_end)
            == LoopAction::Return,
        match turn_action(host, progress, now, budget_end) {
            LoopAction::AwaitFetch(until) => until <= budget_end,
            LoopAction::Sleep(until) => now < until <= budget_end,
            _ => true,
        },
{
    if host.timers@.len() > 0 {
        none_due_is_later(host.timers@, now);
    }
}

proof fn none_due_is_later(timers: Seq<(u32, u128)>, now: u128)
    ensures
        due_ids(timers, now).len() == 0 ==> (earliest(timers) matches Some(d) ==> d > now),
    decreases timers.len(),
{
    if timers.len() > 0 {
        none_due_is_later(timers.drop_last(), now);
    }
}

proof fn earliest_is_least(timers: Seq<(u32, u128)>)
    ensures
        match earliest(timers) {
            Some(d) => {
                &&& exists|i: int| 0 <= i < timers.len() && (#[trigger] timers[i]).1 == d
                &&& forall|i: int| 0 <= i < timers.len() ==> d <= (#[trigger] timers[i]).1
            },
            None => timers.len() == 0,
        },
    decreases timers.len(),
{
    if timers.len() > 0 {
        let front: Seq<(u32, u128)> = timers.drop_last();
        let last: int = timers.len() - 1;
        earliest_is_least(front);
        assert forall|i: int| 0 <= i < timers.len() implies earliest(timers)->0 <= (
        #[trigger] timers[i]).1 by {
            if i < last {
                assert(front[i] == timers[i]);
            }
        }
        if front.len() > 0 {
            let i: int = choose|i: int|
                0 <= i < front.len() && (#[trigger] front[i]).1 == earliest(front)->0;
            assert(timers[i].1 == earliest(front)->0);
        }
        assert(timers[last].1 == timers.last().1);
    }
}

/// The next deadline is that of a running timer, and no timer is due before
/// it; there is none only where no timer runs.
pub proof fn deadlines_are_those_of_the_next_timer(host: HostLoop)
    ensures
        match earliest(host.timers@) {
            Some(d) => {
                &&& exists|i: int| 0 <= i < host.timers@.len() && (#[trigger] host.timers@[i]).1
                    == d
                &&& forall|i: int|
                    0 <= i < host.timers@.len() ==> d <= (#[trigger] host.timers@[i]).1
            },
            None => host.timers@.len() == 0,
        },
{
    earliest_is_least(host.timers@);
}

proof fn some_due(timers: Seq<(u32, u128)>, now: u128)
    ensures
        due_ids(timers, now).len() > 0 <==> exists|i: int|
            0 <= i < timers.len() && (#[trigger] timers[i]).1 <= now,
    decreases timers.len(),
{
    if timers.len() > 0 {
        let front: Seq<(u32, u128)> = timers.drop_last();
        let last: int = timers.len() - 1;
        some_due(front, now);
        if timers[last].1 > now {
            if exists|i: int| 0 <= i < timers.len() && (#[trigger] timers[i]).1 <= now {
                let i: int = choose|i: int|
                    0 <= i < timers.len() && (#[trigger] timers[i]).1 <= now;
                assert(front[i].1 <= now);
            }
            if exists|i: int| 0 <= i < front.len() && (#[trigger] front[i]).1 <= now {
                let i: int = choose|i: int| 0 <= i < front.len() && (#[trigger] front[i]).1 <= now;
                assert(timers[i].1 <= now);
            }
        }
    }
}

/// A running timer is due at the instant that it was set for, an id under which
/// none runs at no instant.
pub proof fn running_timers_have_their_instants(host: HostLoop, id: u32, i: int)
    requires
        host.wf(),
    ensures
        0 <= i < host.timers@.len() ==> due_at(host.timers@, host.timers@[i].0) == Some(
            host.timers@[i].1,
        ),
        (forall|k: int| 0 <= k < host.timers@.len() ==> (#[trigger] host.timers@[k]).0 != id)
            ==> due_at(host.timers@, id) is None,
{
    if 0 <= i < host.timers@.len() {
        due_at_by_index(host.timers@, i);
    }
    due_at_is_there(host.timers@, id);
}

/// Before the end of its budget a bounded run goes on at once where the last
/// turn did something, a task is posted or a timer is due. Otherwise it waits
/// for the network where a request is under way, and else for the next timer;
/// it ends where there is neither, or where the timer comes too late.
pub proof fn bounded_runs_go_on_while_there_is_work(
    host: HostLoop,
    progress: bool,
    now: u128,
    budget_end: u128,
)
    requires
        now < budget_end,
    ensures
        ({
            let due: bool = exists|i: int|
                0 <= i < host.timers@.len() && (#[trigger] host.timers@[i]).1 <= now;
            let ready: bool = progress || host.posted@.len() > 0 || due;
            match turn_action(host, progress, now, budget_end) {
                LoopAction::Again => ready,
                LoopAction::AwaitFetch(until) => {
                    &&& !ready
                    &&& host.fetches@.len() > 0
                    &&& until == budget_end || exists|i: int|
                        0 <= i < host.timers@.len() && (#[trigger] host.timers@[i]).1 == until
                    &&& forall|i: int|
                        0 <= i < host.timers@.len() ==> until <= (#[trigger] host.timers@[i]).1
                },
                LoopAction::Sleep(until) => {
                    &&& !ready
                    &&& host.fetches@.len() == 0
                    &&& exists|i: int|
                        0 <= i < host.timers@.len() && (#[trigger] host.timers@[i]).1 == until
                    &&& forall|i: int|
                        0 <= i < host.timers@.len() ==> until <= (#[trigger] host.timers@[i]).1
                },
                LoopAction::Return => {
                    &&& !ready
                    &&& host.fetches@.len() == 0
                    &&& forall|i: int|
                        0 <= i < host.timers@.len() ==> budget_end < (#[trigger] host.timers@[i]).1
                },
            }
        }),
{
    some_due(host.timers@, now);
    earliest_is_least(host.timers@);
}

/// The loop looks again when the next timer is due, and where a request is
/// under way five milliseconds from now at the latest.
pub proof fn waits_end_with_the_next_timer(host: HostLoop, now: u128)
    requires
        now <= LATEST_INSTANT,
    ensures
        match wait_instant(host, now) {
            Some(d) => {
                &&& forall|i: int|
                    0 <= i < host.timers@.len() ==> d <= (#[trigger] host.timers@[i]).1
                &&& host.fetches@.len() > 0 ==> d <= now + 5_000_000
                &&& {
                    ||| host.fetches@.len() > 0 && d == now + 5_000_000
                    ||| exists|i: int|
                        0 <= i < host.timers@.len() && (#[trigger] host.timers@[i]).1 == d
                }
            },
            None => host.fetches@.len() == 0 && host.timers@.len() == 0,
        },
{
    earliest_is_least(host.timers@);
}

/// Ids count up from one; behind the greatest they start anew, and none is
/// zero.
pub proof fn ids_count_up(timer: u32, fetch: u64)
    ensures
        following_timer(timer) != 0,
        timer < u32::MAX ==> following_timer(timer) == timer + 1,
        following_timer(u32::MAX) == 1,
        following_fetch(fetch) != 0,
        fetch < u64::MAX ==> following_fetch(fetch) == fetch + 1,
        following_fetch(u64::MAX) == 1,
{
}

} // verus!
