//! Deadlines of entities that wait for something, and pauses between what is done again and
//! again.

use std::time::Duration;

use bevy::time::{Timer, TimerMode};
use vstd::prelude::*;

verus! {

/// How many nanoseconds make one second.
pub const NANOS_PER_SEC: u32 = 1_000_000_000;

/// The longest time in seconds, plus one, that a timer can be set to: a longer one is no longer
/// distinct from `u64::MAX + 1` seconds in single precision.
pub const TIMER_LIMIT_SECS: u64 = 18_446_743_523_953_737_728;

/// A stretch of time.
#[derive(Clone, Copy, Debug, PartialEq, Eq, Structural)]
pub struct Span {
    pub secs: u64,
    pub nanos: u32,
}

impl Span {
    /// The nanoseconds are less than a second.
    pub open spec fn wf(self) -> bool {
        self.nanos < NANOS_PER_SEC
    }

    /// The stretch of time in nanoseconds.
    pub open spec fn total(self) -> int {
        self.secs * NANOS_PER_SEC + self.nanos
    }

    /// A number of whole seconds.
    pub fn from_secs(secs: u64) -> (span: Span)
        ensures
            span == (Span { secs, nanos: 0 }),
            span.wf(),
    {
        Span { secs, nanos: 0 }
    }
}

/// How long `Timer::from_seconds` makes a timer run that is set to `secs` seconds and `nanos`
/// nanoseconds, handed to it in single precision, again in seconds and nanoseconds.
pub uninterp spec fn timer_length(secs: u64, nanos: u32) -> (u64, u32);

/// `bevy::time::Timer::from_seconds`, of a timer that runs once, set to `span`, and
/// `Timer::duration` of that timer.
///
/// The timer's length is `span` as single precision keeps it, which depends on `span` alone.
/// A number of whole seconds that has at most 24 bits is kept as it is. Beyond
/// [`TIMER_LIMIT_SECS`] the outside function panics.
#[verifier::external_body]
fn timer_from_seconds(span: Span) -> (length: Span)
    requires
        span.wf(),
        span.secs < TIMER_LIMIT_SECS,
    ensures
        (length.secs, length.nanos) == timer_length(span.secs, span.nanos),
        length.wf(),
        span.nanos == 0 && span.secs <= 0x100_0000 ==> length == span,
{
    let seconds = Duration::new(span.secs, span.nanos).as_secs_f32();
    let length = Timer::from_seconds(seconds, TimerMode::Once).duration();
    Span { secs: length.as_secs(), nanos: length.subsec_nanos() }
}

/// `bevy::time::Timer::tick`, on a timer that runs once, has been running for `elapsed` and is
/// not finished, and `Timer::elapsed` and `Timer::is_finished` of it afterwards.
///
/// The timer is finished when it has run for its length; it stops there, and has run for exactly
/// that long.
#[verifier::external_body]
fn timer_tick(length: Span, elapsed: Span, delta: Span) -> (after: (Span, bool))
    requires
        length.wf(),
        elapsed.wf(),
        delta.wf(),
    ensures
        after.0.wf(),
        after.1 == (elapsed.total() + delta.total() >= length.total()),
        after.0.total() == if after.1 {
            length.total()
        } else {
            elapsed.total() + delta.total()
        },
{
    let mut timer = Timer::new(Duration::new(length.secs, length.nanos), TimerMode::Once);
    timer.set_elapsed(Duration::new(elapsed.secs, elapsed.nanos));
    timer.tick(Duration::new(delta.secs, delta.nanos));
    let elapsed = timer.elapsed();
    let elapsed = Span { secs: elapsed.as_secs(), nanos: elapsed.subsec_nanos() };
    (elapsed, timer.is_finished())
}

/// A deadline: the entity that has one is given up when the time is over.
#[derive(Debug)]
pub struct Timeout {
    /// How long the entity may wait.
    pub length: Span,
    /// How long it has waited.
    pub elapsed: Span,
    /// Whether the time is over.
    pub finished: bool,
    /// What to say when the entity is given up.
    pub message: Option<String>,
}

impl Timeout {
    /// The times are valid, and the wait ends at the length and not before.
    pub open spec fn wf(self) -> bool {
        &&& self.length.wf()
        &&& self.elapsed.wf()
        &&& self.finished ==> self.elapsed.total() == self.length.total()
    }

    /// A timeout that has just begun.
    pub fn new(duration: Span, message: Option<String>) -> (timeout: Timeout)
        requires
            duration.wf(),
            duration.secs < TIMER_LIMIT_SECS,
        ensures
            timeout.wf(),
            (timeout.length.secs, timeout.length.nanos) == timer_length(
                duration.secs,
                duration.nanos,
            ),
            duration.nanos == 0 && duration.secs <= 0x100_0000 ==> timeout.length == duration,
            timeout.elapsed == (Span { secs: 0, nanos: 0 }),
            !timeout.finished,
            timeout.message == message,
    {
        Timeout {
            length: timer_from_seconds(duration),
            elapsed: Span { secs: 0, nanos: 0 },
            finished: false,
            message,
        }
    }

    /// Whether the time is over.
    pub fn is_finished(&self) -> (finished: bool)
        ensures
            finished == self.finished,
    {
        self.finished
    }

    /// What a timeout is after `delta` more: one that is over stays as it is.
    pub open spec fn ticked(self, delta: Span, after: Timeout) -> bool {
        &&& after.length == self.length
        &&& after.message == self.message
        &&& if self.finished {
            after == self
        } else {
            &&& after.finished == (self.elapsed.total() + delta.total() >= self.length.total())
            &&& after.elapsed.total() == if after.finished {
                self.length.total()
            } else {
                self.elapsed.total() + delta.total()
            }
        }
    }

    /// Lets `delta` pass.
    pub fn tick(&mut self, delta: Span)
        requires
            old(self).wf(),
            delta.wf(),
        ensures
            final(self).wf(),
            old(self).ticked(delta, *final(self)),
    {
        if !self.finished {
            let (elapsed, finished) = timer_tick(self.length, self.elapsed, delta);
            self.elapsed = elapsed;
            self.finished = finished;
        }
    }
}

/// Less than `pause_ms` milliseconds have passed at `now` since `last`.
pub open spec fn within_pause(now: Span, last: Option<Span>, pause_ms: u64) -> bool {
    last is Some && now.total() < last->0.total() + pause_ms * 1_000_000
}

/// When something was last done that is asked for at `now`: it is not done within the pause.
pub open spec fn last_done(now: Span, last: Option<Span>, pause_ms: u64) -> Option<Span> {
    if within_pause(now, last, pause_ms) {
        last
    } else {
        Some(now)
    }
}

/// Whether it is too soon to do something again: less than `pause_ms` milliseconds have passed at
/// `now` since it was last done, at `last`. If it is not too soon, it is done now.
pub fn too_soon(now: Span, last: &mut Option<Span>, pause_ms: u64) -> (soon: bool)
    requires
        now.wf(),
        *old(last) is Some ==> old(last)->0.wf(),
    ensures
        soon == within_pause(now, *old(last), pause_ms),
        *final(last) == last_done(now, *old(last), pause_ms),
{
    let soon: bool = match *last {
        Some(before) => {
            let at: u128 = now.secs as u128 * 1_000_000_000 + now.nanos as u128;
            let from: u128 = before.secs as u128 * 1_000_000_000 + before.nanos as u128;
            at < from + pause_ms as u128 * 1_000_000
        },
        None => false,
    };
    if !soon {
        *last = Some(now);
    }
    soon
}

/// Something that is done only when it is not too soon is done at most once in every pause:
/// `times` are the times at which it is asked for and `lasts` when it was last done, before and
/// after each of them. It is done at `times[i]` and again at `times[j]`, and then at least the
/// pause lies between.
pub proof fn law_pause_is_kept(
    times: Seq<Span>,
    lasts: Seq<Option<Span>>,
    pause_ms: u64,
    i: int,
    j: int,
)
    requires
        0 <= i < j < times.len(),
        lasts.len() == times.len() + 1,
        forall|k: int|
            0 <= k < times.len() ==> #[trigger] lasts[k + 1] == last_done(
                times[k],
                lasts[k],
                pause_ms,
            ),
        !within_pause(times[i], lasts[i], pause_ms),
        !within_pause(times[j], lasts[j], pause_ms),
    ensures
        times[j].total() >= times[i].total() + pause_ms * 1_000_000,
{
    lemma_last_done(times, lasts, pause_ms, i, j);
}

/// Once something has been done, it was last done then or later.
proof fn lemma_last_done(
    times: Seq<Span>,
    lasts: Seq<Option<Span>>,
    pause_ms: u64,
    i: int,
    j: int,
)
    requires
        0 <= i < j < times.len(),
        lasts.len() == times.len() + 1,
        forall|k: int|
            0 <= k < times.len() ==> #[trigger] lasts[k + 1] == last_done(
                times[k],
                lasts[k],
                pause_ms,
            ),
        !within_pause(times[i], lasts[i], pause_ms),
    ensures
        lasts[j] is Some,
        lasts[j]->0.total() >= times[i].total(),
    decreases j - i,
{
    assert(lasts[(j - 1) + 1] == last_done(times[j - 1], lasts[j - 1], pause_ms));
    if i < j - 1 {
        lemma_last_done(times, lasts, pause_ms, i, j - 1);
    }
}

/// Waiting in two parts is waiting once: after `first` and then `second` a timeout is over if and
/// only if it would be had both passed at once, and it has waited as long.
pub proof fn law_ticks_add_up(
    start: Timeout,
    first: Span,
    second: Span,
    both: Span,
    between: Timeout,
    end: Timeout,
    at_once: Timeout,
)
    requires
        start.wf(),
        both.total() == first.total() + second.total(),
        start.ticked(first, between),
        between.ticked(second, end),
        start.ticked(both, at_once),
    ensures
        end.finished == at_once.finished,
        end.elapsed.total() == at_once.elapsed.total(),
{
}

/// Stretches of time, added up in nanoseconds.
pub open spec fn total_of(deltas: Seq<Span>) -> int
    decreases deltas.len(),
{
    if deltas.len() == 0 {
        0
    } else {
        total_of(deltas.drop_last()) + deltas.last().total()
    }
}

/// A timeout is over exactly when the time that has passed since it began has reached its length,
/// however that time was divided. `states` is the timeout before and after each of `deltas`.
pub proof fn law_over_after_length(states: Seq<Timeout>, deltas: Seq<Span>)
    requires
        deltas.len() > 0,
        states.len() == deltas.len() + 1,
        !states[0].finished,
        states[0].elapsed.total() == 0,
        forall|i: int|
            0 <= i < deltas.len() ==> (#[trigger] states[i]).ticked(deltas[i], states[i + 1]),
    ensures
        states.last().finished == (total_of(deltas) >= states[0].length.total()),
        states.last().length == states[0].length,
        !states.last().finished ==> states.last().elapsed.total() == total_of(deltas),
    decreases deltas.len(),
{
    let n = deltas.len() - 1;
    assert(states[n].ticked(deltas[n], states[n + 1]));
    reveal_with_fuel(total_of, 2);
    if n > 0 {
        let (before, rest) = (states.drop_last(), deltas.drop_last());
        assert forall|i: int| 0 <= i < rest.len() implies (#[trigger] before[i]).ticked(
            rest[i],
            before[i + 1],
        ) by {
            assert(states[i].ticked(deltas[i], states[i + 1]));
        }
        law_over_after_length(before, rest);
    }
}

/// A stretch of time is its seconds and its nanoseconds.
pub proof fn law_span_total(span: Span)
    ensures
        span.total() == span.secs * 1_000_000_000 + span.nanos,
{
}

/// Letting time pass changes neither how long a timeout is nor what it says, and one that is over
/// does not change at all.
pub proof fn law_tick_keeps_the_rest(before: Timeout, delta: Span, after: Timeout)
    requires
        before.ticked(delta, after),
    ensures
        after.length == before.length,
        after.message == before.message,
        before.finished ==> after == before,
        !before.finished && after.finished ==> after.elapsed.total() == before.length.total(),
        !after.finished ==> after.elapsed.total() == before.elapsed.total() + delta.secs
            * 1_000_000_000 + delta.nanos,
        !after.finished ==> after.elapsed.total() < before.length.total() || before.finished,
{
}

/// A pause ends: what was never done is never too soon, and what was done is not once the pause
/// has passed; it is then done at that time. Until then it is too soon, and when it was last done
/// stays.
pub proof fn law_pause_ends(now: Span, last: Span, pause_ms: u64)
    ensures
        !within_pause(now, None, pause_ms),
        last_done(now, None, pause_ms) == Some(now),
        ({
            let (at, from) = (
                now.secs * 1_000_000_000 + now.nanos,
                last.secs * 1_000_000_000 + last.nanos,
            );
            if at - from >= pause_ms * 1_000_000 {
                !within_pause(now, Some(last), pause_ms) && last_done(now, Some(last), pause_ms)
                    == Some(now)
            } else {
                within_pause(now, Some(last), pause_ms) && last_done(now, Some(last), pause_ms)
                    == Some(last)
            }
        }),
{
}

} // verus!
