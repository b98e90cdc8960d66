//! Animation clocks: elapsed time against a fixed duration.

use vstd::prelude::*;
use crate::arith::{lemma_scale_between, lemma_scale_whole, scale, spec_scale};

verus! {

/// A ratio of two whole numbers, used for the progress of a transition.
#[derive(Clone, Copy, PartialEq, Eq, Debug, Structural)]
pub struct Fraction {
    pub num: u32,
    pub den: u32,
}

/// The point `num / den` of the way from `from` to `to`, rounded down.
pub open spec fn spec_lerp(from: int, to: int, num: int, den: int) -> int {
    from + spec_scale(to - from, num, den)
}

/// Interpolation starts at `from`, ends at `to` and stays between the two.
pub proof fn lemma_lerp_ends(from: int, to: int, num: int, den: int)
    requires
        0 <= num <= den,
        den > 0,
    ensures
        spec_lerp(from, to, 0, den) == from,
        spec_lerp(from, to, den, den) == to,
        from <= to ==> from <= spec_lerp(from, to, num, den) <= to,
        to <= from ==> to <= spec_lerp(from, to, num, den) <= from,
{
    lemma_scale_whole(to - from, 1, den);
    assert(1 * den == den);
    lemma_scale_between(to - from, num, den);
}

impl Fraction {
    /// A fraction between zero and one with a denominator that is not zero.
    pub open spec fn wf(self) -> bool {
        0 < self.den && self.num <= self.den
    }

    /// Whether the fraction has reached one.
    pub open spec fn spec_is_one(self) -> bool {
        self.num >= self.den
    }

    /// Whether the fraction has reached one.
    #[verifier::when_used_as_spec(spec_is_one)]
    pub fn is_one(self) -> (b: bool)
        ensures
            b == self.spec_is_one(),
    {
        self.num >= self.den
    }

    /// The point this far of the way from `from` to `to`, rounded down.
    pub fn lerp(self, from: i64, to: i64) -> (r: i64)
        requires
            self.wf(),
        ensures
            r == spec_lerp(from as int, to as int, self.num as int, self.den as int),
    {
        let diff = to as i128 - from as i128;
        let part = scale(diff, self.num as i128, self.den as i128);
        proof {
            lemma_lerp_ends(from as int, to as int, self.num as int, self.den as int);
        }
        (from as i128 + part) as i64
    }
}

/// Progress of one transition: time elapsed since its start, against its
/// total duration. The elapsed time never goes beyond the duration.
#[derive(Clone, Copy, PartialEq, Eq, Debug, Structural)]
pub struct AnimationClock {
    elapsed: u32,
    duration: u32,
}

impl AnimationClock {
    /// Ticks elapsed since the start, capped at the duration.
    pub closed spec fn elapsed(self) -> nat {
        self.elapsed as nat
    }

    /// Total duration in ticks.
    pub closed spec fn duration(self) -> nat {
        self.duration as nat
    }

    /// The duration is not zero, and no more time has elapsed than it is long.
    pub open spec fn wf(self) -> bool {
        0 < self.duration() && self.elapsed() <= self.duration()
    }

    /// A clock at its start.
    pub closed spec fn spec_start(duration: u32) -> AnimationClock {
        AnimationClock { elapsed: 0, duration }
    }

    /// The clock after `dt` more ticks: the duration stays as it is, and the
    /// elapsed time grows by `dt`, but not beyond the duration.
    pub closed spec fn spec_advanced(self, dt: u64) -> AnimationClock {
        AnimationClock {
            elapsed: if self.elapsed + dt <= self.duration {
                (self.elapsed + dt) as u32
            } else {
                self.duration
            },
            duration: self.duration,
        }
    }

    /// The progress of a clock is a fraction between zero and one: the
    /// elapsed time over the duration.
    pub proof fn lemma_progress(self)
        requires
            self.wf(),
        ensures
            self.spec_progress().wf(),
            self.spec_progress().num == self.elapsed(),
            self.spec_progress().den == self.duration(),
            self.spec_progress().spec_is_one() == self.spec_is_done(),
    {
    }

    /// A clock starts with no time elapsed.
    pub proof fn lemma_start(duration: u32)
        requires
            duration > 0,
        ensures
            Self::spec_start(duration).wf(),
            Self::spec_start(duration).elapsed() == 0,
            Self::spec_start(duration).duration() == duration,
            !Self::spec_start(duration).spec_is_done(),
    {
    }

    /// Time that passes adds to the elapsed time until the duration is reached.
    pub proof fn lemma_advanced(self, dt: u64)
        requires
            self.wf(),
        ensures
            self.spec_advanced(dt).wf(),
            self.spec_advanced(dt).duration() == self.duration(),
            self.spec_advanced(dt).elapsed() == if self.elapsed() + dt <= self.duration() {
                self.elapsed() + dt
            } else {
                self.duration() as int
            },
    {
    }

    /// Elapsed time over duration.
    pub open spec fn spec_progress(&self) -> Fraction {
        Fraction { num: self.elapsed() as u32, den: self.duration() as u32 }
    }

    /// Whether the whole duration has elapsed.
    pub open spec fn spec_is_done(&self) -> bool {
        self.elapsed() >= self.duration()
    }

    /// A clock at its start.
    pub fn start(duration: u32) -> (c: AnimationClock)
        requires
            duration > 0,
        ensures
            c == Self::spec_start(duration),
            c.wf(),
            c.elapsed() == 0,
            c.duration() == duration,
    {
        AnimationClock { elapsed: 0, duration }
    }

    /// Lets `dt` ticks pass. The duration stays as it is.
    pub fn advance(&mut self, dt: u64)
        requires
            old(self).wf(),
        ensures
            *final(self) == old(self).spec_advanced(dt),
            final(self).wf(),
            final(self).duration() == old(self).duration(),
            final(self).elapsed() == if old(self).elapsed() + dt <= old(self).duration() {
                old(self).elapsed() + dt
            } else {
                old(self).duration() as int
            },
    {
        let left = self.duration - self.elapsed;
        if dt >= left as u64 {
            self.elapsed = self.duration;
        } else {
            self.elapsed = self.elapsed + dt as u32;
        }
    }

    /// Elapsed time over duration: a fraction between zero and one.
    #[verifier::when_used_as_spec(spec_progress)]
    pub fn progress(&self) -> (p: Fraction)
        requires
            self.wf(),
        ensures
            p == self.spec_progress(),
            p.wf(),
            p.num == self.elapsed(),
            p.den == self.duration(),
    {
        Fraction { num: self.elapsed, den: self.duration }
    }

    /// Whether the whole duration has elapsed, that is, progress has reached one.
    #[verifier::when_used_as_spec(spec_is_done)]
    pub fn is_done(&self) -> (done: bool)
        ensures
            done == self.spec_is_done(),
    {
        self.elapsed >= self.duration
    }
}

} // verus!
