//! The regeneration debouncer: a burst of size changes becomes one deferred
//! signal, emitted once the viewport has kept its size for a quiet period.
//!
//! The host supplies the time that passed since the tick before (in
//! nanoseconds), so the machine counts the time that is left until its
//! deadline instead of keeping a clock: with `now` the time of the current
//! tick, the deadline of an armed debouncer is `now + remaining`.

use vstd::prelude::*;

verus! {

/// The quiet period, a quarter of a second, in nanoseconds.
pub const DEBOUNCE_INTERVAL: u64 = 250_000_000;

/// The two states of the debouncer.
#[derive(Clone, Copy, Debug, PartialEq, Eq, Structural)]
pub enum Debouncer {
    /// Nothing is due.
    Idle,
    /// A signal is due once `remaining` nanoseconds have passed.
    Armed { remaining: u64 },
}

/// What one tick brings to the debouncer: the time since the tick before and
/// whether the tracker saw the size change.
#[derive(Clone, Copy, Debug, PartialEq, Eq, Structural)]
pub struct DebounceStep {
    pub delta: u64,
    pub size_changed: bool,
}

impl Debouncer {
    /// The deadline of an armed debouncer, seen from a tick at time `now`.
    pub open spec fn deadline(self, now: int) -> Option<int> {
        match self {
            Debouncer::Idle => None,
            Debouncer::Armed { remaining } => Some(now + remaining),
        }
    }

    /// Whether a tick `delta` after the one before reaches the deadline.
    pub open spec fn is_due(self, delta: u64) -> bool {
        match self {
            Debouncer::Idle => false,
            Debouncer::Armed { remaining } => delta >= remaining,
        }
    }

    /// The state after a tick on which the size did not change.
    pub open spec fn after_tick(self, delta: u64) -> Debouncer {
        match self {
            Debouncer::Idle => Debouncer::Idle,
            Debouncer::Armed { remaining } => if delta >= remaining {
                Debouncer::Idle
            } else {
                Debouncer::Armed { remaining: (remaining - delta) as u64 }
            },
        }
    }

    /// Whether the step emits the signal. A step that re-arms never does.
    pub open spec fn step_fires(self, step: DebounceStep) -> bool {
        !step.size_changed && self.is_due(step.delta)
    }

    /// The state after a step.
    pub open spec fn after_step(self, step: DebounceStep) -> Debouncer {
        if step.size_changed {
            Debouncer::Armed { remaining: DEBOUNCE_INTERVAL }
        } else {
            self.after_tick(step.delta)
        }
    }

    /// A debouncer starts armed, so that the first grid is generated even if
    /// the size never changes.
    pub fn new() -> (debouncer: Self)
        ensures
            debouncer == (Debouncer::Armed { remaining: DEBOUNCE_INTERVAL }),
    {
        Debouncer::Armed { remaining: DEBOUNCE_INTERVAL }
    }

    /// A size change re-arms the debouncer: the deadline is one full interval
    /// after the current tick, whatever it was before.
    pub fn on_size_change(&mut self)
        ensures
            *final(self) == (Debouncer::Armed { remaining: DEBOUNCE_INTERVAL }),
    {
        *self = Debouncer::Armed { remaining: DEBOUNCE_INTERVAL };
    }

    /// A tick without a size change, `delta` after the tick before. It emits
    /// the signal exactly when the debouncer is armed and the deadline is
    /// reached, and is idle afterwards.
    pub fn tick(&mut self, delta: u64) -> (fire: bool)
        ensures
            fire == old(self).is_due(delta),
            *final(self) == old(self).after_tick(delta),
            fire ==> *final(self) == Debouncer::Idle,
    {
        match *self {
            Debouncer::Idle => false,
            Debouncer::Armed { remaining } => {
                if delta >= remaining {
                    *self = Debouncer::Idle;
                    true
                } else {
                    *self = Debouncer::Armed { remaining: remaining - delta };
                    false
                }
            },
        }
    }

    /// One step of the machine, in the order the pipeline uses: a size change
    /// re-arms first, and the rest of such a tick emits nothing.
    pub fn step(&mut self, step: DebounceStep) -> (fire: bool)
        ensures
            fire == old(self).step_fires(step),
            *final(self) == old(self).after_step(step),
    {
        if step.size_changed {
            self.on_size_change();
            false
        } else {
            self.tick(step.delta)
        }
    }

    /// Whether a signal is due at some time.
    pub fn is_armed(&self) -> (b: bool)
        ensures
            b == (*self is Armed),
    {
        match self {
            Debouncer::Idle => false,
            Debouncer::Armed { .. } => true,
        }
    }
}

/// The time that is left stands for a deadline. A tick is due exactly when
/// its time has reached the deadline; a tick that is not due leaves the
/// deadline where it was; and a size change on a tick at the time `now +
/// delta` moves the deadline one interval past that time.
pub proof fn lemma_tick_meets_deadline(debouncer: Debouncer, now: int, delta: u64)
    ensures
        debouncer.is_due(delta) <==> (debouncer.deadline(now) is Some && now + delta
            >= debouncer.deadline(now).unwrap()),
        debouncer.is_due(delta) ==> debouncer.after_tick(delta) == Debouncer::Idle,
        !debouncer.is_due(delta) ==> debouncer.after_tick(delta).deadline(now + delta)
            == debouncer.deadline(now),
        debouncer.after_step(DebounceStep { delta, size_changed: true }).deadline(now + delta)
            == Some(now + delta + DEBOUNCE_INTERVAL),
{
}

/// The time that the first `n` steps of a run take.
pub open spec fn time_through(steps: Seq<DebounceStep>, n: int) -> int
    decreases n,
{
    if n <= 0 {
        0
    } else {
        time_through(steps, n - 1) + steps[n - 1].delta
    }
}

/// The time from step `a` to step `b` of a run.
pub open spec fn elapsed(steps: Seq<DebounceStep>, a: int, b: int) -> int {
    time_through(steps, b + 1) - time_through(steps, a + 1)
}

/// The state in which step `n` of a run finds the debouncer.
pub open spec fn state_before(start: Debouncer, steps: Seq<DebounceStep>, n: int) -> Debouncer
    decreases n,
{
    if n <= 0 {
        start
    } else {
        state_before(start, steps, n - 1).after_step(steps[n - 1])
    }
}

/// Whether step `k` of a run emits the signal.
pub open spec fn fired_at(start: Debouncer, steps: Seq<DebounceStep>, k: int) -> bool {
    state_before(start, steps, k).step_fires(steps[k])
}

/// How many of the first `n` steps of a run emit the signal.
pub open spec fn fire_count(start: Debouncer, steps: Seq<DebounceStep>, n: int) -> nat
    decreases n,
{
    if n <= 0 {
        0
    } else {
        fire_count(start, steps, n - 1) + if fired_at(start, steps, n - 1) {
            1nat
        } else {
            0nat
        }
    }
}

/// Steps `a` and `b` are size changes with none between them.
pub open spec fn consecutive_changes(steps: Seq<DebounceStep>, a: int, b: int) -> bool {
    &&& 0 <= a < b < steps.len()
    &&& steps[a].size_changed
    &&& steps[b].size_changed
    &&& forall|j: int| a < j < b ==> !steps[j].size_changed
}

/// Up to step `last`, each size change follows the one before it by less than
/// the interval.
pub open spec fn burst_within_interval(steps: Seq<DebounceStep>, last: int) -> bool {
    forall|a: int, b: int|
        #![trigger consecutive_changes(steps, a, b)]
        consecutive_changes(steps, a, b) && b <= last ==> elapsed(steps, a, b) < DEBOUNCE_INTERVAL
}

proof fn lemma_time_monotonic(steps: Seq<DebounceStep>, a: int, b: int)
    requires
        a <= b,
    ensures
        time_through(steps, a) <= time_through(steps, b),
    decreases b - a,
{
    if a < b {
        lemma_time_monotonic(steps, a, b - 1);
    }
}

/// Once a size change has armed the debouncer, its state depends on the time
/// since that change alone.
proof fn lemma_state_after_change(start: Debouncer, steps: Seq<DebounceStep>, c: int, n: int)
    requires
        0 <= c < n <= steps.len(),
        steps[c].size_changed,
        forall|j: int| c < j < n ==> !steps[j].size_changed,
    ensures
        state_before(start, steps, n) == if elapsed(steps, c, n - 1) < DEBOUNCE_INTERVAL {
            Debouncer::Armed { remaining: (DEBOUNCE_INTERVAL - elapsed(steps, c, n - 1)) as u64 }
        } else {
            Debouncer::Idle
        },
        elapsed(steps, c, n - 1) >= 0,
    decreases n - c,
{
    if n > c + 1 {
        lemma_state_after_change(start, steps, c, n - 1);
    }
}

/// After a size change, the signal is emitted on the first tick that comes at
/// least one interval after it, and on no other, until the size changes
/// again.
pub proof fn lemma_fires_at_deadline(
    start: Debouncer,
    steps: Seq<DebounceStep>,
    change: int,
    k: int,
)
    requires
        0 <= change < k < steps.len(),
        steps[change].size_changed,
        forall|j: int| change < j <= k ==> !steps[j].size_changed,
    ensures
        fired_at(start, steps, k) <==> elapsed(steps, change, k - 1) < DEBOUNCE_INTERVAL <= elapsed(
            steps,
            change,
            k,
        ),
{
    lemma_state_after_change(start, steps, change, k);
}

/// The size change at or before step `k` that is nearest to it.
spec fn change_at_or_before(steps: Seq<DebounceStep>, k: int) -> int
    decreases k,
{
    if k <= 0 || steps[k].size_changed {
        k
    } else {
        change_at_or_before(steps, k - 1)
    }
}

/// The size change at or after step `k` that is nearest to it.
spec fn change_at_or_after(steps: Seq<DebounceStep>, k: int, last: int) -> int
    decreases last - k,
{
    if k >= last || steps[k].size_changed {
        k
    } else {
        change_at_or_after(steps, k + 1, last)
    }
}

proof fn lemma_change_at_or_before(steps: Seq<DebounceStep>, k: int)
    requires
        0 <= k < steps.len(),
        steps[0].size_changed,
    ensures
        0 <= change_at_or_before(steps, k) <= k,
        steps[change_at_or_before(steps, k)].size_changed,
        forall|j: int| change_at_or_before(steps, k) < j <= k ==> !steps[j].size_changed,
    decreases k,
{
    if k > 0 && !steps[k].size_changed {
        lemma_change_at_or_before(steps, k - 1);
    }
}

proof fn lemma_change_at_or_after(steps: Seq<DebounceStep>, k: int, last: int)
    requires
        0 <= k <= last < steps.len(),
        steps[last].size_changed,
    ensures
        k <= change_at_or_after(steps, k, last) <= last,
        steps[change_at_or_after(steps, k, last)].size_changed,
        forall|j: int| k <= j < change_at_or_after(steps, k, last) ==> !steps[j].size_changed,
    decreases last - k,
{
    if k < last && !steps[k].size_changed {
        lemma_change_at_or_after(steps, k + 1, last);
    }
}

proof fn lemma_quiet_count(start: Debouncer, steps: Seq<DebounceStep>, last: int, n: int)
    requires
        0 <= last < n <= steps.len(),
        steps[last].size_changed,
        forall|j: int| last < j < steps.len() ==> !steps[j].size_changed,
        fire_count(start, steps, last + 1) == 0,
    ensures
        fire_count(start, steps, n) == if elapsed(steps, last, n - 1) >= DEBOUNCE_INTERVAL {
            1nat
        } else {
            0nat
        },
    decreases n,
{
    if n > last + 1 {
        lemma_quiet_count(start, steps, last, n - 1);
        lemma_fires_at_deadline(start, steps, last, n - 1);
        lemma_time_monotonic(steps, n - 1, n);
    }
}

proof fn lemma_burst_count(start: Debouncer, steps: Seq<DebounceStep>, n: int)
    requires
        0 <= n <= steps.len(),
        forall|k: int| 0 <= k < n ==> !fired_at(start, steps, k),
    ensures
        fire_count(start, steps, n) == 0,
    decreases n,
{
    if n > 0 {
        lemma_burst_count(start, steps, n - 1);
    }
}

/// A burst of size changes, each less than one interval after the one before,
/// emits the signal exactly once: on the first tick that comes at least one
/// interval after the last change. No tick of the burst emits it, whatever
/// state the first change found the debouncer in, and the run counts one
/// signal as soon as it reaches that tick.
pub proof fn lemma_burst_fires_once(start: Debouncer, steps: Seq<DebounceStep>, last: int)
    requires
        0 <= last < steps.len(),
        steps[0].size_changed,
        steps[last].size_changed,
        forall|j: int| last < j < steps.len() ==> !steps[j].size_changed,
        burst_within_interval(steps, last),
    ensures
        forall|k: int| 0 <= k <= last ==> !fired_at(start, steps, k),
        forall|k: int|
            last < k < steps.len() ==> (fired_at(start, steps, k) <==> elapsed(steps, last, k - 1)
                < DEBOUNCE_INTERVAL <= elapsed(steps, last, k)),
        fire_count(start, steps, steps.len() as int) == if elapsed(
            steps,
            last,
            steps.len() - 1,
        ) >= DEBOUNCE_INTERVAL {
            1nat
        } else {
            0nat
        },
{
    assert forall|k: int| 0 <= k <= last implies !fired_at(start, steps, k) by {
        if !steps[k].size_changed {
            lemma_change_at_or_before(steps, k);
            lemma_change_at_or_after(steps, k, last);
            let a = change_at_or_before(steps, k);
            let b = change_at_or_after(steps, k, last);
            assert(consecutive_changes(steps, a, b));
            lemma_fires_at_deadline(start, steps, a, k);
            lemma_time_monotonic(steps, k + 1, b + 1);
        }
    }
    assert forall|k: int| last < k < steps.len() implies (fired_at(start, steps, k) <==> elapsed(
        steps,
        last,
        k - 1,
    ) < DEBOUNCE_INTERVAL <= elapsed(steps, last, k)) by {
        lemma_fires_at_deadline(start, steps, last, k);
    }
    lemma_burst_count(start, steps, last + 1);
    lemma_quiet_count(start, steps, last, steps.len() as int);
}

} // verus!
