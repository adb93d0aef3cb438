//! Rolling-window trend analysis over temperature readings.
//!
//! Readings are kept in millidegrees Celsius — the unit the kernel's
//! thermal zone interface reports — in a fixed ring of the most recent
//! samples.  Reading the sensor file and pacing the polling loop happen
//! outside the library; what stands here is the history and every decision
//! made over it: collecting the samples actually present, averaging a
//! window of them, and judging whether the temperature is falling.

use vstd::arithmetic::div_mod::{lemma_div_is_ordered, lemma_div_multiples_vanish};
use vstd::prelude::*;

use crate::buffer::{pushed, FixedBuffer};

verus! {

/// Number of retained readings.
pub const BUFFER_LEN: usize = 20;

/// Interval between temperature readings, in milliseconds.
pub const SCAN_INTERVAL_MS: u64 = 100;

/// How much lower (in millidegrees) the average of the newer half of the
/// history must be than the older half's to count as decreasing.
pub const DEGREE_THRESHOLD_MILLI: i64 = 1000;

/// Temperature in millidegrees Celsius.
pub type Temp = i32;

/// The readings actually present in a history window, in the window's own
/// order (most recent first), with the never-written slots dropped.
pub open spec fn present(s: Seq<Option<Temp>>) -> Seq<Temp>
    decreases s.len(),
{
    if s.len() == 0 {
        Seq::empty()
    } else {
        match s[0] {
            Some(t) => seq![t] + present(s.skip(1)),
            None => present(s.skip(1)),
        }
    }
}

/// The sum of a sequence of readings.
pub open spec fn sum(s: Seq<Temp>) -> int
    decreases s.len(),
{
    if s.len() == 0 {
        0
    } else {
        s[0] + sum(s.skip(1))
    }
}

/// Integer division rounding toward zero, the rounding `/` performs at
/// run time.
pub open spec fn div_toward_zero(a: int, b: int) -> int {
    if a >= 0 {
        a / b
    } else {
        -((-a) / b)
    }
}

/// Appending one slot to a window appends its reading (if any) to the
/// present readings.
proof fn lemma_present_snoc(s: Seq<Option<Temp>>, x: Option<Temp>)
    ensures
        present(s.push(x)) == present(s) + (match x {
            Some(t) => seq![t],
            None => Seq::<Temp>::empty(),
        }),
    decreases s.len(),
{
    let tail = (match x {
        Some(t) => seq![t],
        None => Seq::<Temp>::empty(),
    });
    if s.len() == 0 {
        assert(s.push(x)[0] == x);
        assert(s.push(x).skip(1) =~= Seq::<Option<Temp>>::empty());
        assert(present(Seq::<Option<Temp>>::empty()) == Seq::<Temp>::empty());
        assert(present(s) == Seq::<Temp>::empty());
        assert(present(s.push(x)) =~= present(s) + tail);
    } else {
        assert(s.push(x)[0] == s[0]);
        assert(s.push(x).skip(1) =~= s.skip(1).push(x));
        lemma_present_snoc(s.skip(1), x);
        assert(present(s.push(x)) =~= present(s) + tail);
    }
}

/// Appending one reading to a sequence adds it to the sum.
proof fn lemma_sum_snoc(s: Seq<Temp>, t: Temp)
    ensures
        sum(s.push(t)) == sum(s) + t,
    decreases s.len(),
{
    if s.len() == 0 {
        assert(s.push(t)[0] == t);
        assert(s.push(t).skip(1) =~= Seq::<Temp>::empty());
        assert(sum(Seq::<Temp>::empty()) == 0);
        assert(sum(s) == 0);
    } else {
        assert(s.push(t)[0] == s[0]);
        assert(s.push(t).skip(1) =~= s.skip(1).push(t));
        lemma_sum_snoc(s.skip(1), t);
    }
}

/// The sum of `n` readings lies between `n` times the smallest and `n`
/// times the largest representable reading.
proof fn lemma_sum_bounds(s: Seq<Temp>)
    ensures
        s.len() * (i32::MIN as int) <= sum(s) <= s.len() * (i32::MAX as int),
    decreases s.len(),
{
    if s.len() > 0 {
        lemma_sum_bounds(s.skip(1));
    }
}

/// There are never more present readings than slots.
proof fn lemma_present_len(s: Seq<Option<Temp>>)
    ensures
        present(s).len() <= s.len(),
    decreases s.len(),
{
    if s.len() > 0 {
        lemma_present_len(s.skip(1));
    }
}

/// `|a * b| <= bound_a * bound_b` when `|a| <= bound_a` and `0 <= b <= bound_b`.
proof fn lemma_product_bound(a: int, b: int, bound_a: int, bound_b: int)
    by (nonlinear_arith)
    requires
        -bound_a <= a <= bound_a,
        0 <= b <= bound_b,
    ensures
        -(bound_a * bound_b) <= a * b <= bound_a * bound_b,
{
}

/// A window with no readings written yet has nothing present.
proof fn lemma_present_of_unwritten(s: Seq<Option<Temp>>)
    requires
        forall|i: int| 0 <= i < s.len() ==> s[i] is None,
    ensures
        present(s) == Seq::<Temp>::empty(),
    decreases s.len(),
{
    if s.len() > 0 {
        assert(s[0] is None);
        lemma_present_of_unwritten(s.skip(1));
    }
}

/// The exact value [`Thermal::average`] returns: the first present reading
/// plus the window of up to `n` further readings starting `start` past it,
/// averaged with integer division toward zero.
pub open spec fn spec_average(vals: Seq<Temp>, start: int, n: int) -> int
    recommends
        vals.len() >= 1,
        start >= 0,
        n >= 0,
{
    let lo = if 1 + start > vals.len() {
        vals.len() as int
    } else {
        1 + start
    };
    let hi = if lo + n > vals.len() {
        vals.len() as int
    } else {
        lo + n
    };
    let total = vals[0] + sum(vals.subrange(lo, hi));
    div_toward_zero(total, 1 + (hi - lo))
}

/// Whether the temperature is falling: the average of the newer half of the
/// readings is more than the threshold below the average of the older half.
/// Stated exactly over the integers by clearing both denominators; a window
/// without enough readings to fill the newer half and compare it against at
/// least one older one never counts as decreasing.
pub open spec fn spec_is_decreasing(vals: Seq<Temp>) -> bool {
    let mid = (BUFFER_LEN / 2) as int;
    let len_b = vals.len() - mid;
    &&& vals.len() > mid
    &&& sum(vals.take(mid)) * len_b + (DEGREE_THRESHOLD_MILLI as int) * mid * len_b < sum(
        vals.skip(mid),
    ) * mid
}

/// Thermal zone history: the most recent temperature readings and the
/// polling interval the sampling loop should keep.
pub struct Thermal {
    /// Interval between temperature readings, in milliseconds.
    pub interval_ms: u64,
    readings: FixedBuffer<Option<Temp>, BUFFER_LEN>,
}

impl Thermal {
    /// Well-formed: the ring of readings is, and holds its full width.
    pub closed spec fn wf(&self) -> bool {
        &&& self.readings.wf()
        &&& self.readings@.len() == BUFFER_LEN
    }

    /// The history window, most recent first.
    pub closed spec fn readings_seq(&self) -> Seq<Option<Temp>> {
        self.readings@
    }

    /// The polling interval, in milliseconds.
    pub closed spec fn spec_interval_ms(&self) -> u64 {
        self.interval_ms
    }

    /// A history with no readings yet, polled every `interval_ms`.
    pub fn new(interval_ms: u64) -> (r: Self)
        ensures
            r.wf(),
            r.spec_interval_ms() == interval_ms,
            r.readings_seq() == Seq::new(BUFFER_LEN as nat, |i: int| Option::<Temp>::None),
            present(r.readings_seq()) == Seq::<Temp>::empty(),
    {
        let r = Thermal { interval_ms, readings: FixedBuffer::filled(None) };
        proof {
            lemma_present_of_unwritten(r.readings@);
        }
        r
    }

    /// Record one reading; it becomes the most recent entry of the window
    /// and the oldest entry falls off.
    pub fn record(&mut self, temp: Temp)
        requires
            old(self).wf(),
        ensures
            final(self).wf(),
            final(self).spec_interval_ms() == old(self).spec_interval_ms(),
            final(self).readings_seq() == pushed(old(self).readings_seq(), Some(temp)),
    {
        self.readings.push(Some(temp));
    }

    /// The readings present in the window, most recent first; empty if
    /// nothing has been recorded yet.
    pub fn get_temps(&self) -> (r: Vec<Temp>)
        requires
            self.wf(),
        ensures
            r@ == present(self.readings_seq()),
    {
        let ghost s = self.readings@;
        let mut out: Vec<Temp> = Vec::new();
        let mut i: usize = 0;
        while i < BUFFER_LEN
            invariant
                self.wf(),
                s == self.readings@,
                i <= BUFFER_LEN,
                out@ == present(s.take(i as int)),
            decreases BUFFER_LEN - i,
        {
            proof {
                lemma_present_snoc(s.take(i as int), s[i as int]);
                assert(s.take(i as int + 1) =~= s.take(i as int).push(s[i as int]));
            }
            match self.readings.get(i) {
                Some(slot) => match slot {
                    Some(t) => {
                        out.push(*t);
                    },
                    None => {},
                },
                None => {},
            }
            assert(out@ =~= present(s.take(i as int + 1)));
            i += 1;
        }
        proof {
            assert(s.take(BUFFER_LEN as int) =~= s);
        }
        out
    }

    /// Average of the first present reading and up to `n` further present
    /// readings starting `start` past it, with integer division rounding
    /// toward zero.  At least one reading must have been recorded.
    pub fn average(&self, start: usize, n: usize) -> (r: Temp)
        requires
            self.wf(),
            present(self.readings_seq()).len() >= 1,
        ensures
            r as int == spec_average(present(self.readings_seq()), start as int, n as int),
    {
        proof {
            lemma_present_len(self.readings_seq());
        }
        let vals = self.get_temps();
        let len = vals.len();
        let lo = if start >= len {
            len
        } else {
            start + 1
        };
        let hi = if n >= len - lo {
            len
        } else {
            lo + n
        };
        let mut total: i64 = vals[0] as i64;
        let mut j = lo;
        while j < hi
            invariant
                lo <= j <= hi <= len == vals@.len() <= BUFFER_LEN,
                total == vals@[0] + sum(vals@.subrange(lo as int, j as int)),
                (1 + j - lo) * (i32::MIN as int) <= total <= (1 + j - lo) * (i32::MAX as int),
            decreases hi - j,
        {
            proof {
                lemma_sum_snoc(vals@.subrange(lo as int, j as int), vals@[j as int]);
                assert(vals@.subrange(lo as int, j as int + 1) =~= vals@.subrange(
                    lo as int,
                    j as int,
                ).push(vals@[j as int]));
            }
            total = total + vals[j] as i64;
            j += 1;
        }
        let count: u64 = 1 + (hi - lo) as u64;
        let ghost c = count as int;
        proof {
            assert(c * (i32::MIN as int) <= total <= c * (i32::MAX as int));
            lemma_div_multiples_vanish(i32::MAX as int, c);
            lemma_div_multiples_vanish(-(i32::MIN as int), c);
            if total >= 0 {
                lemma_div_is_ordered(total as int, c * (i32::MAX as int), c);
                assert((c * (i32::MAX as int)) / c == i32::MAX as int);
            } else {
                lemma_div_is_ordered(-(total as int), c * (-(i32::MIN as int)), c);
                assert((c * (-(i32::MIN as int))) / c == -(i32::MIN as int));
            }
        }
        let r: i64 = if total >= 0 {
            ((total as u64) / count) as i64
        } else {
            -((((-total) as u64) / count) as i64)
        };
        r as i32
    }

    /// Whether the temperature is falling over the retained history: the
    /// average of the newer half of the present readings lies more than
    /// [`DEGREE_THRESHOLD_MILLI`] below the average of the older half.
    pub fn is_decreasing(&self) -> (r: bool)
        requires
            self.wf(),
        ensures
            r == spec_is_decreasing(present(self.readings_seq())),
    {
        proof {
            lemma_present_len(self.readings_seq());
        }
        let vals = self.get_temps();
        let mid = BUFFER_LEN / 2;
        if vals.len() <= mid {
            return false;
        }
        let len = vals.len();
        let mut sum_a: i64 = 0;
        let mut i: usize = 0;
        while i < mid
            invariant
                i <= mid < len == vals@.len() <= BUFFER_LEN,
                mid == BUFFER_LEN / 2,
                sum_a == sum(vals@.subrange(0, i as int)),
                i * (i32::MIN as int) <= sum_a <= i * (i32::MAX as int),
            decreases mid - i,
        {
            proof {
                lemma_sum_snoc(vals@.subrange(0, i as int), vals@[i as int]);
                assert(vals@.subrange(0, i as int + 1) =~= vals@.subrange(0, i as int).push(
                    vals@[i as int],
                ));
            }
            sum_a = sum_a + vals[i] as i64;
            i += 1;
        }
        let mut sum_b: i64 = 0;
        let mut j: usize = mid;
        while j < len
            invariant
                mid <= j <= len == vals@.len() <= BUFFER_LEN,
                mid == BUFFER_LEN / 2,
                sum_b == sum(vals@.subrange(mid as int, j as int)),
                (j - mid) * (i32::MIN as int) <= sum_b <= (j - mid) * (i32::MAX as int),
            decreases len - j,
        {
            proof {
                lemma_sum_snoc(vals@.subrange(mid as int, j as int), vals@[j as int]);
                assert(vals@.subrange(mid as int, j as int + 1) =~= vals@.subrange(
                    mid as int,
                    j as int,
                ).push(vals@[j as int]));
            }
            sum_b = sum_b + vals[j] as i64;
            j += 1;
        }
        let len_b: i64 = (len - mid) as i64;
        proof {
            assert(vals@.take(mid as int) =~= vals@.subrange(0, mid as int));
            assert(vals@.skip(mid as int) =~= vals@.subrange(mid as int, len as int));
            lemma_product_bound(sum_a as int, len_b as int, 10 * (-(i32::MIN as int)), 10);
            lemma_product_bound(sum_b as int, 10, 10 * (-(i32::MIN as int)), 10);
            assert(mid == 10);
            assert(1 <= len_b <= 10);
        }
        let threshold_scaled: i64 = DEGREE_THRESHOLD_MILLI * (mid as i64);
        proof {
            lemma_product_bound(threshold_scaled as int, len_b as int, 10000, 10);
        }
        let lhs: i64 = sum_a * len_b + threshold_scaled * len_b;
        let rhs: i64 = sum_b * (mid as i64);
        lhs < rhs
    }
}

impl Default for Thermal {
    /// A history with the standard scan interval and nothing recorded yet.
    fn default() -> (r: Self)
        ensures
            r.wf(),
            r.spec_interval_ms() == SCAN_INTERVAL_MS,
            present(r.readings_seq()) == Seq::<Temp>::empty(),
    {
        Thermal::new(SCAN_INTERVAL_MS)
    }
}

} // verus!
