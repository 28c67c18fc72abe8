//! A debounced value: a raw signal is taken for real only after it has held
//! steady for a whole window.
//!
//! Three things are kept apart: the last raw sample, the time it was first
//! seen, and the settled value. A sample that differs from the last one
//! restarts the window; a sample that agrees with the last one settles once
//! the window has passed. Time is a count of clock ticks.
//!
//! Values are compared with `==`. What the contracts say holds where `==` on
//! the type is the relation that Verus knows for it, as it is on `bool`.

use vstd::prelude::*;
use vstd::std_specs::cmp::PartialEqSpec;

verus! {

#[derive(Debug, Copy, Clone)]
pub struct Debounce<T> {
    /// The settled value.
    pub value: T,
    /// The window, in ticks.
    pub delay: u64,
    /// The last raw sample.
    pub measured_value: T,
    /// When the last raw sample was first seen.
    pub measured_at: u64,
}

/// Ticks from `earlier` to `now`; none where the clock has gone back.
pub open spec fn elapsed(earlier: u64, now: u64) -> u64 {
    if now >= earlier {
        (now - earlier) as u64
    } else {
        0
    }
}

/// One sample taken at `now`: the value afterwards, and whether it settled
/// on something new.
pub open spec fn measure_spec<T: PartialEq>(d: Debounce<T>, value: T, now: u64) -> (
    Debounce<T>,
    bool,
) {
    if !d.measured_value.eq_spec(&value) {
        (Debounce { measured_value: value, measured_at: now, ..d }, false)
    } else if !d.measured_value.eq_spec(&d.value) && elapsed(d.measured_at, now) >= d.delay {
        (Debounce { value, ..d }, true)
    } else {
        (d, false)
    }
}

impl<T> Debounce<T> where T: Clone + PartialEq<T> {
    /// A value settled on `initial` at the current time, with a window of
    /// `delay` ticks.
    pub fn new(initial: T, delay: u64) -> (debounce: Debounce<T>)
        ensures
            cloned(initial, debounce.value),
            debounce.measured_value == initial,
            debounce.delay == delay,
    {
        Debounce::new_at(initial, delay, clock_ticks())
    }

    /// A value settled on `initial` at the time `now`.
    pub fn new_at(initial: T, delay: u64, now: u64) -> (debounce: Debounce<T>)
        ensures
            cloned(initial, debounce.value),
            debounce.measured_value == initial,
            debounce.delay == delay,
            debounce.measured_at == now,
    {
        Debounce { value: initial.clone(), delay, measured_value: initial, measured_at: now }
    }

    /// Takes a raw sample at the current time. What it does is
    /// [`Debounce::measure_at`] for the tick count that the clock gave.
    pub fn measure(&mut self, value: T) -> (changed: bool)
        ensures
            T::obeys_eq_spec() ==> exists|now: u64| #[trigger]
                measure_spec(*old(self), value, now) == (*final(self), changed),
    {
        let now = clock_ticks();
        let changed = self.measure_at(value, now);
        assert(T::obeys_eq_spec() ==> measure_spec(*old(self), value, now) == (*self, changed));
        changed
    }

    /// Takes a raw sample at the time `now`, and says whether the settled
    /// value changed.
    ///
    /// A sample that differs from the last one is remembered with its time. A
    /// sample that agrees with the last one, differs from the settled value
    /// and comes a window or more after the time remembered becomes the
    /// settled value.
    pub fn measure_at(&mut self, value: T, now: u64) -> (changed: bool)
        ensures
            T::obeys_eq_spec() ==> (*final(self), changed) == measure_spec(
                *old(self),
                value,
                now,
            ),
    {
        if self.measured_value != value {
            self.measured_value = value;
            self.measured_at = now;
            return false;
        }
        let waited = if now >= self.measured_at {
            now - self.measured_at
        } else {
            0
        };
        if self.measured_value != self.value && waited >= self.delay {
            self.value = value;
            return true;
        }
        false
    }
}

/// A raw sample and the time it was taken at.
pub struct Sample {
    pub value: bool,
    pub at: u64,
}

/// A switch fed a run of samples: the switch afterwards, and what each
/// sample reported.
pub open spec fn run(d: Debounce<bool>, samples: Seq<Sample>) -> (Debounce<bool>, Seq<bool>)
    decreases samples.len(),
{
    if samples.len() == 0 {
        (d, Seq::empty())
    } else {
        let (next, changed) = measure_spec(d, samples[0].value, samples[0].at);
        let (last, reports) = run(next, samples.drop_first());
        (last, seq![changed] + reports)
    }
}

/// How many of the reports are `true`.
pub open spec fn count_changes(reports: Seq<bool>) -> nat
    decreases reports.len(),
{
    if reports.len() == 0 {
        0
    } else {
        (if reports[0] {
            1nat
        } else {
            0nat
        }) + count_changes(reports.drop_first())
    }
}

/// Every sample has the value `level`.
pub open spec fn steady(samples: Seq<Sample>, level: bool) -> bool {
    forall|i: int| 0 <= i < samples.len() ==> (#[trigger] samples[i]).value == level
}

/// When the level of sample `i` was first seen: the time of the first sample
/// of the unbroken run of that level that ends with sample `i`. A run that
/// reaches back to the first sample and continues the level that the switch
/// saw last began when the switch saw that level first.
pub open spec fn level_since(d: Debounce<bool>, samples: Seq<Sample>, i: int) -> u64
    decreases i,
{
    if i <= 0 {
        if samples[0].value == d.measured_value {
            d.measured_at
        } else {
            samples[0].at
        }
    } else if samples[i].value == samples[i - 1].value {
        level_since(d, samples, i - 1)
    } else {
        samples[i].at
    }
}

/// How long the level of sample `i` has been held when that sample is taken.
pub open spec fn held_for(d: Debounce<bool>, samples: Seq<Sample>, i: int) -> u64 {
    elapsed(level_since(d, samples, i), samples[i].at)
}

/// The raw signal wobbles inside the window: no level is held for a window or
/// more.
pub open spec fn bounces(d: Debounce<bool>, samples: Seq<Sample>) -> bool {
    forall|i: int| 0 <= i < samples.len() ==> #[trigger] held_for(d, samples, i) < d.delay
}

/// The switch after the first sample sees the rest of the samples as the
/// switch before it sees them all.
proof fn lemma_level_since_shifts(d: Debounce<bool>, samples: Seq<Sample>, i: int)
    requires
        0 < i < samples.len(),
    ensures
        level_since(measure_spec(d, samples[0].value, samples[0].at).0, samples.drop_first(), i - 1)
            == level_since(d, samples, i),
    decreases i,
{
    let next = measure_spec(d, samples[0].value, samples[0].at).0;
    let rest = samples.drop_first();
    assert(rest[i - 1] == samples[i]);
    if i == 1 {
        assert(rest[0] == samples[1]);
        assert(next.measured_value == samples[0].value);
        assert(next.measured_at == level_since(d, samples, 0));
        assert(level_since(next, rest, 0) == if samples[1].value == samples[0].value {
            next.measured_at
        } else {
            samples[1].at
        });
    } else {
        assert(rest[i - 2] == samples[i - 1]);
        lemma_level_since_shifts(d, samples, i - 1);
    }
}

/// The reports of a run are as many as its samples.
pub proof fn lemma_run_reports_each_sample(d: Debounce<bool>, samples: Seq<Sample>)
    ensures
        run(d, samples).1.len() == samples.len(),
    decreases samples.len(),
{
    if samples.len() > 0 {
        lemma_run_reports_each_sample(
            measure_spec(d, samples[0].value, samples[0].at).0,
            samples.drop_first(),
        );
    }
}

/// A sample reports a change only where it repeats the level seen before it,
/// and that level has been held for a window or more.
pub proof fn lemma_change_needs_a_held_level(d: Debounce<bool>, samples: Seq<Sample>, i: int)
    requires
        0 <= i < samples.len(),
        run(d, samples).1[i],
    ensures
        held_for(d, samples, i) >= d.delay,
        i > 0 ==> samples[i].value == samples[i - 1].value,
        i == 0 ==> samples[i].value == d.measured_value,
    decreases i,
{
    let next = measure_spec(d, samples[0].value, samples[0].at).0;
    let rest = samples.drop_first();
    lemma_run_reports_each_sample(next, rest);
    if i > 0 {
        assert(run(d, samples).1[i] == run(next, rest).1[i - 1]);
        assert(rest[i - 1] == samples[i]);
        lemma_change_needs_a_held_level(next, rest, i - 1);
        lemma_level_since_shifts(d, samples, i);
        assert(next.delay == d.delay);
        if i > 1 {
            assert(rest[i - 2] == samples[i - 1]);
        } else {
            assert(next.measured_value == samples[0].value);
        }
    }
}

/// A run without a report of a change leaves the settled value as it was.
pub proof fn lemma_no_report_keeps_value(d: Debounce<bool>, samples: Seq<Sample>)
    requires
        forall|i: int| 0 <= i < samples.len() ==> !run(d, samples).1[i],
    ensures
        count_changes(run(d, samples).1) == 0,
        run(d, samples).0.value == d.value,
    decreases samples.len(),
{
    if samples.len() > 0 {
        let (next, changed) = measure_spec(d, samples[0].value, samples[0].at);
        let rest = samples.drop_first();
        let reports = run(next, rest).1;
        lemma_run_reports_each_sample(next, rest);
        assert(run(d, samples).1[0] == changed);
        assert forall|i: int| 0 <= i < rest.len() implies !run(next, rest).1[i] by {
            assert(run(d, samples).1[i + 1] == reports[i]);
        }
        lemma_no_report_keeps_value(next, rest);
        assert((seq![changed] + reports).drop_first() =~= reports);
    }
}

/// While the raw signal wobbles inside the window, no sample reports a
/// change and the settled value stays.
pub proof fn lemma_bounce_reports_nothing(d: Debounce<bool>, samples: Seq<Sample>)
    requires
        bounces(d, samples),
    ensures
        forall|i: int| 0 <= i < samples.len() ==> !run(d, samples).1[i],
        count_changes(run(d, samples).1) == 0,
        run(d, samples).0.value == d.value,
{
    assert forall|i: int| 0 <= i < samples.len() implies !run(d, samples).1[i] by {
        if run(d, samples).1[i] {
            lemma_change_needs_a_held_level(d, samples, i);
            assert(held_for(d, samples, i) < d.delay);
        }
    }
    lemma_no_report_keeps_value(d, samples);
}

/// A switch that has settled on the level it is fed reports nothing more.
pub proof fn lemma_settled_reports_nothing(d: Debounce<bool>, samples: Seq<Sample>)
    requires
        steady(samples, d.value),
        d.measured_value == d.value,
    ensures
        count_changes(run(d, samples).1) == 0,
        run(d, samples).0 == d,
    decreases samples.len(),
{
    if samples.len() > 0 {
        let rest = samples.drop_first();
        assert(samples[0].value == d.value);
        assert forall|i: int| 0 <= i < rest.len() implies (#[trigger] rest[i]).value
            == d.value by {
            assert(rest[i] == samples[i + 1]);
        }
        lemma_settled_reports_nothing(d, rest);
        let reports = run(d, rest).1;
        assert((seq![false] + reports).drop_first() =~= reports);
    }
}

/// A switch that already sees the level it is fed, has not settled on it, and
/// is fed it until a window has passed since it first saw it, reports exactly
/// one change and settles on that level.
pub proof fn lemma_held_level_settles_once(d: Debounce<bool>, samples: Seq<Sample>)
    requires
        samples.len() > 0,
        steady(samples, d.measured_value),
        d.value != d.measured_value,
        samples.last().at - d.measured_at >= d.delay,
    ensures
        count_changes(run(d, samples).1) == 1,
        run(d, samples).0.value == d.measured_value,
    decreases samples.len(),
{
    let rest = samples.drop_first();
    let (next, changed) = measure_spec(d, samples[0].value, samples[0].at);
    let reports = run(next, rest).1;
    assert(samples[0].value == d.measured_value);
    assert((seq![changed] + reports).drop_first() =~= reports);
    assert forall|i: int| 0 <= i < rest.len() implies (#[trigger] rest[i]).value
        == d.measured_value by {
        assert(rest[i] == samples[i + 1]);
    }
    if changed {
        lemma_settled_reports_nothing(next, rest);
    } else {
        assert(rest.len() > 0);
        assert(rest.last() == samples.last());
        lemma_held_level_settles_once(next, rest);
    }
}

/// Once the raw signal holds steady at a level other than the settled one,
/// from a first sample to one a window or more later, exactly one sample
/// reports a change, and the switch has settled on that level. The clock has
/// not gone back behind the time at which the switch last saw a new level.
pub proof fn lemma_steady_signal_settles_once(
    d: Debounce<bool>,
    samples: Seq<Sample>,
    level: bool,
)
    requires
        samples.len() >= 2,
        steady(samples, level),
        level != d.value,
        d.measured_at <= samples[0].at,
        samples.last().at - samples[0].at >= d.delay,
    ensures
        count_changes(run(d, samples).1) == 1,
        run(d, samples).0.value == level,
{
    assert(samples[0].value == level);
    if d.measured_value == level {
        lemma_held_level_settles_once(d, samples);
    } else {
        let rest = samples.drop_first();
        let (next, changed) = measure_spec(d, samples[0].value, samples[0].at);
        let reports = run(next, rest).1;
        assert((seq![changed] + reports).drop_first() =~= reports);
        assert(rest.last() == samples.last());
        assert forall|i: int| 0 <= i < rest.len() implies (#[trigger] rest[i]).value
            == level by {
            assert(rest[i] == samples[i + 1]);
        }
        lemma_held_level_settles_once(next, rest);
    }
}

/// Calls `embassy_time::Instant::now` and takes its tick count. Nothing is
/// claimed of the time that comes back.
#[verifier::external_body]
pub(crate) fn clock_ticks() -> (now: u64) {
    embassy_time::Instant::now().as_ticks()
}

} // verus!
