use vstd::prelude::*;

verus! {

use std::time::Instant;

#[verifier::external_type_specification]
#[verifier::external_body]
pub struct ExInstant(Instant);

/// Relies on std::time::Instant::now for the current moment; nothing is
/// assumed of the value.
#[verifier::external_body]
fn now_instant() -> Instant {
    Instant::now()
}

/// Relies on Instant::saturating_duration_since and Duration::as_nanos: the
/// whole nanoseconds from `earlier` to `later`, zero when `later` comes
/// first, clamped at `u64::MAX`.  Nothing more is assumed of the clock.
#[verifier::external_body]
fn nanos_between(earlier: Instant, later: Instant) -> u64 {
    let nanos = later.saturating_duration_since(earlier).as_nanos();
    u64::try_from(nanos).unwrap_or(u64::MAX)
}

/// What a moving average can accumulate: an associative-intent combination
/// and an even share.  Each implementation fixes the meaning of both through
/// its `sp_*` functions; the progress record below saturates so that every
/// operation is total.
pub trait Accumulate: Sized + Copy {
    /// The value this implementation assigns to combining `self` and `other`.
    spec fn sp_acc(self, other: Self) -> Self;

    /// The value this implementation assigns to an even share of `self`
    /// among `n` parts.
    spec fn sp_share(self, n: usize) -> Self;

    /// The neutral starting value of an accumulation.
    spec fn sp_acc_zero() -> Self;

    fn acc(self, other: Self) -> (r: Self)
        ensures
            r == self.sp_acc(other),
    ;

    fn share(self, n: usize) -> (r: Self)
        requires
            n > 0,
        ensures
            r == self.sp_share(n),
    ;

    fn acc_zero() -> (r: Self)
        ensures
            r == Self::sp_acc_zero(),
    ;
}

/// The running accumulation of the first `n` entries, taken from the left.
pub open spec fn spec_acc_prefix<T: Accumulate>(s: Seq<T>, n: int) -> T
    recommends
        0 <= n <= s.len(),
    decreases n,
{
    if n <= 0 {
        T::sp_acc_zero()
    } else {
        spec_acc_prefix(s, n - 1).sp_acc(s[n - 1])
    }
}

/// A windowed average over the last `N` entries.  Until the window has been
/// filled once, the average is taken over the written prefix together with
/// one yet-unwritten (neutral) slot.
pub struct MovingAverage<T: Accumulate, const N: usize> {
    entries: [T; N],
    index: usize,
    average: T,
    full: bool,
}

impl<T: Accumulate, const N: usize> MovingAverage<T, N> {
    /// The window contents, oldest slots overwritten in a cycle.
    pub closed spec fn spec_entries(self) -> Seq<T> {
        self.entries@
    }

    /// The slot the next entry lands in.
    pub closed spec fn spec_pos(self) -> int {
        self.index as int
    }

    /// Whether the window has been filled at least once.
    pub closed spec fn spec_full(self) -> bool {
        self.full
    }

    /// The average as of the latest update.
    pub closed spec fn spec_average(self) -> T {
        self.average
    }

    pub open spec fn wf(self) -> bool {
        &&& self.spec_pos() < N
        &&& self.spec_entries().len() == N
    }

    /// The average the window holds after an update: over everything once
    /// full, otherwise over the slots up to and including the one after the
    /// latest write.
    pub open spec fn spec_current_average(self) -> T {
        if self.spec_full() {
            spec_acc_prefix(self.spec_entries(), N as int).sp_share(N)
        } else {
            spec_acc_prefix(self.spec_entries(), self.spec_pos() + 1).sp_share(
                (self.spec_pos() + 1) as usize,
            )
        }
    }

    pub fn new() -> (r: Self)
        requires
            N > 0,
        ensures
            r.wf(),
            r.spec_entries() =~= Seq::new(N as nat, |i: int| T::sp_acc_zero()),
            r.spec_pos() == 0,
            !r.spec_full(),
            r.spec_average() == T::sp_acc_zero(),
    {
        Self {
            entries: vstd::array::array_fill_for_copy_types(T::acc_zero()),
            index: 0,
            average: T::acc_zero(),
            full: false,
        }
    }

    pub fn update(&mut self, new_entry: T) -> (r: T)
        requires
            old(self).wf(),
        ensures
            final(self).wf(),
            final(self).spec_entries() == old(self).spec_entries().update(
                old(self).spec_pos(),
                new_entry,
            ),
            final(self).spec_pos() == (old(self).spec_pos() + 1) % (N as int),
            final(self).spec_full() == (old(self).spec_full() || old(self).spec_pos() == N - 1),
            final(self).spec_average() == final(self).spec_current_average(),
            r == final(self).spec_average(),
    {
        if self.index == N - 1 {
            self.full = true;
        }
        let mut entries = self.entries;
        entries[self.index] = new_entry;
        self.entries = entries;
        self.index = (self.index + 1) % N;

        let count = if self.full {
            N
        } else {
            self.index + 1
        };
        let mut acc = T::acc_zero();
        let mut i: usize = 0;
        while i < count
            invariant
                0 <= i <= count,
                count <= N,
                self.entries@.len() == N,
                acc == spec_acc_prefix(self.entries@, i as int),
            decreases count - i,
        {
            acc = acc.acc(self.entries[i]);
            i = i + 1;
        }
        self.average = acc.share(count);
        proof {
            assert(self.spec_entries() =~= old(self).spec_entries().update(
                old(self).spec_pos(),
                new_entry,
            ));
        }
        self.average
    }

    pub fn average(&self) -> (r: T)
        ensures
            r == self.spec_average(),
    {
        self.average
    }
}

/// One step of rendering progress: how long it took and how many pixels it
/// finished.  The time is held in whole nanoseconds; both fields saturate
/// instead of overflowing when accumulated.
#[derive(Clone, Copy, Debug, PartialEq, Eq, Structural)]
pub struct UpdateRecord {
    pub time: u64,
    pub diff: u64,
}

impl Accumulate for UpdateRecord {
    open spec fn sp_acc(self, other: Self) -> Self {
        UpdateRecord {
            time: if self.time + other.time > u64::MAX {
                u64::MAX
            } else {
                (self.time + other.time) as u64
            },
            diff: if self.diff + other.diff > u64::MAX {
                u64::MAX
            } else {
                (self.diff + other.diff) as u64
            },
        }
    }

    open spec fn sp_share(self, n: usize) -> Self {
        UpdateRecord { time: (self.time as int / n as int) as u64, diff: (self.diff as int / n as int) as u64 }
    }

    open spec fn sp_acc_zero() -> Self {
        UpdateRecord { time: 0, diff: 0 }
    }

    fn acc(self, other: Self) -> (r: Self) {
        UpdateRecord {
            time: if u64::MAX - self.time < other.time {
                u64::MAX
            } else {
                self.time + other.time
            },
            diff: if u64::MAX - self.diff < other.diff {
                u64::MAX
            } else {
                self.diff + other.diff
            },
        }
    }

    fn share(self, n: usize) -> (r: Self) {
        let d = n as u64;
        let r = UpdateRecord { time: self.time / d, diff: self.diff / d };
        proof {
            assert(r.time == (self.time as int / n as int) as u64) by (nonlinear_arith)
                requires
                    n > 0,
                    d == n as u64,
                    r.time == self.time as int / d as int,
            ;
            assert(r.diff == (self.diff as int / n as int) as u64) by (nonlinear_arith)
                requires
                    n > 0,
                    d == n as u64,
                    r.diff == self.diff as int / d as int,
            ;
        }
        r
    }

    fn acc_zero() -> (r: Self) {
        UpdateRecord { time: 0, diff: 0 }
    }
}

/// An update record with the given fields; a named form for the contracts
/// to quantify over.
pub open spec fn record_with(time: u64, diff: u64) -> UpdateRecord {
    UpdateRecord { time, diff }
}

/// The amount of forward progress between two counts: their difference when
/// the count advanced, zero when it moved backwards.
pub open spec fn spec_step(new_current: isize, old_current: isize) -> u64 {
    if new_current >= old_current {
        (new_current - old_current) as u64
    } else {
        0
    }
}

/// The expected time left, in nanoseconds: the remaining work scaled by the
/// averaged time per unit of work, zero while no work has been observed, and
/// clamped at `u64::MAX`.
pub open spec fn spec_eta_nanos(avg: UpdateRecord, remaining: int) -> int {
    if avg.diff == 0 {
        0
    } else if remaining * avg.time / (avg.diff as int) > u64::MAX {
        u64::MAX as int
    } else {
        remaining * avg.time / (avg.diff as int)
    }
}

/// Progress over a closed range of counts, with a moving average of the
/// recent update pace for estimating the time left.
pub struct ProgressTracker {
    min: isize,
    max: isize,
    current: isize,
    first_update: Instant,
    last_update: Instant,
    records: MovingAverage<UpdateRecord, 32>,
}

impl ProgressTracker {
    pub closed spec fn spec_min(self) -> isize {
        self.min
    }

    pub closed spec fn spec_max(self) -> isize {
        self.max
    }

    pub closed spec fn spec_current(self) -> isize {
        self.current
    }

    /// The window of recent update records.
    pub closed spec fn spec_records(self) -> MovingAverage<UpdateRecord, 32> {
        self.records
    }

    pub open spec fn wf(self) -> bool {
        &&& self.spec_min() <= self.spec_current() <= self.spec_max()
        &&& self.spec_max() - self.spec_min() <= isize::MAX
        &&& self.spec_records().wf()
    }

    pub fn new(min: isize, max: isize) -> (r: Self)
        requires
            min <= max,
            max - min <= isize::MAX,
        ensures
            r.wf(),
            r.spec_min() == min,
            r.spec_max() == max,
            r.spec_current() == min,
            !r.spec_records().spec_full(),
            r.spec_records().spec_pos() == 0,
    {
        Self {
            min,
            max,
            current: min,
            first_update: now_instant(),
            last_update: now_instant(),
            records: MovingAverage::new(),
        }
    }

    pub fn update(&mut self, new_current: isize)
        requires
            old(self).wf(),
            old(self).spec_min() <= new_current <= old(self).spec_max(),
        ensures
            final(self).wf(),
            final(self).spec_min() == old(self).spec_min(),
            final(self).spec_max() == old(self).spec_max(),
            final(self).spec_current() == new_current,
            exists|delta: u64|
                final(self).spec_records().spec_entries()
                    == old(self).spec_records().spec_entries().update(
                    old(self).spec_records().spec_pos(),
                    #[trigger] record_with(delta, spec_step(new_current, old(self).spec_current())),
                ),
    {
        let last = self.current;
        self.current = new_current;

        let now = now_instant();
        let delta = nanos_between(self.last_update, now);
        self.last_update = now;

        let diff: isize = if self.current > last {
            self.current - last
        } else {
            0
        };
        let record = UpdateRecord { time: delta, diff: diff as u64 };
        self.records.update(record);
        proof {
            let step = spec_step(new_current, old(self).spec_current());
            assert(record == record_with(record.time, step));
            assert(self.spec_records().spec_entries()
                == old(self).spec_records().spec_entries().update(
                old(self).spec_records().spec_pos(),
                record_with(record.time, step),
            ));
        }
    }

    /// Nanoseconds spent since the tracker was made.  The clock alone
    /// decides the value, so nothing is promised of it.
    pub fn get_elapsed(&self) -> u64 {
        nanos_between(self.first_update, now_instant())
    }

    /// The estimated nanoseconds left, from the averaged recent pace.
    pub fn get_eta(&self) -> (r: u64)
        requires
            self.wf(),
        ensures
            r == spec_eta_nanos(
                self.spec_records().spec_average(),
                self.spec_max() - self.spec_current(),
            ),
    {
        let avg = self.records.average();
        if avg.diff == 0 {
            0
        } else {
            let remaining = (self.max - self.current) as u64;
            proof {
                assert((remaining as u128) * (avg.time as u128) < u128::MAX) by (nonlinear_arith)
                    requires
                        remaining <= u64::MAX,
                        avg.time <= u64::MAX,
                ;
            }
            let eta = (remaining as u128) * (avg.time as u128) / (avg.diff as u128);
            if eta > u64::MAX as u128 {
                u64::MAX
            } else {
                eta as u64
            }
        }
    }

    pub fn max(&self) -> (r: isize)
        ensures
            r == self.spec_max(),
    {
        self.max
    }

    /// The latest count handed to `update`.
    pub fn current(&self) -> (r: isize)
        ensures
            r == self.spec_current(),
    {
        self.current
    }
}

} // verus!
