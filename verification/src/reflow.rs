//! Layout of an ordered row of equally wide members, which stays continuous
//! while a member is being inserted or removed.
//!
//! The row is a run of cells, each one stride wide: the width of a member
//! and one gap. The run is centred, and each member stands in the middle of
//! its cell, half a gap from either end of it.

use vstd::prelude::*;
use vstd::arithmetic::div_mod::lemma_div_multiples_vanish_quotient;
use crate::arith::{
    fits_i64, lemma_mul_bounded, lemma_quotient_bounded, lemma_scale_between, lemma_scale_whole,
    scale, spec_scale,
};
use crate::clock::Fraction;

verus! {

/// The most members a row is laid out for. The products of a length, a
/// stride and the denominator of a progress are computed in 128 bits; with
/// longer rows they would no longer fit.
pub const ROW_CAPACITY: usize = 0x10_0000;

/// What is happening to a row while it is laid out.
#[derive(Clone, Copy, PartialEq, Eq, Debug, Structural)]
pub enum Transition {
    /// Nothing: the row is at rest.
    Rest,
    /// A member is on its way to the row and will be inserted at index `at`.
    /// It is not counted in the row's length yet.
    Insert { at: usize, progress: Fraction },
    /// A member has left the row from index `at`. It is no longer counted in
    /// the row's length.
    Remove { at: usize, progress: Fraction },
}

impl Transition {
    /// The progress of the transition is a fraction between zero and one.
    pub open spec fn wf(self) -> bool {
        match self {
            Transition::Rest => true,
            Transition::Insert { at, progress } => progress.wf(),
            Transition::Remove { at, progress } => progress.wf(),
        }
    }

    /// Numerator of the effective length of a row of `len` members. An
    /// insertion at progress `p` makes the row `len + p` long, a removal
    /// `len + (1 - p)`.
    pub open spec fn length_num(self, len: nat) -> int {
        match self {
            Transition::Rest => len as int,
            Transition::Insert { at, progress } => len * progress.den + progress.num,
            Transition::Remove { at, progress } => len * progress.den + (progress.den
                - progress.num),
        }
    }

    /// Denominator of the effective length.
    pub open spec fn length_den(self) -> int {
        match self {
            Transition::Rest => 1,
            Transition::Insert { at, progress } => progress.den as int,
            Transition::Remove { at, progress } => progress.den as int,
        }
    }

    /// How far the member at `index` stands to the right of its place in a
    /// row at rest, for a stride of `stride`. Members at or after an
    /// insertion make room as it proceeds; members at or after a removal
    /// start one place further right and close the gap as it proceeds.
    pub open spec fn displacement(self, stride: int, index: nat) -> int {
        match self {
            Transition::Rest => 0,
            Transition::Insert { at, progress } => if index >= at {
                spec_scale(stride, progress.num as int, progress.den as int)
            } else {
                0
            },
            Transition::Remove { at, progress } => if index >= at {
                spec_scale(stride, progress.den - progress.num, progress.den as int)
            } else {
                0
            },
        }
    }
}

/// A centred row of members that are `width` wide and `gap` apart.
#[derive(Clone, Copy, PartialEq, Eq, Debug, Structural)]
pub struct Row {
    pub center: i64,
    pub width: u32,
    pub gap: u32,
}

impl Row {
    /// Distance between the left edges of two neighbours.
    pub open spec fn stride(self) -> int {
        self.width + self.gap
    }

    /// Left edge of the member at `index` in a row of `len` members at rest:
    /// the row is centred, so the cell of the member starts half the length
    /// of the row left of the centre, plus one stride for each member before
    /// it, and the member stands half a gap into its cell.
    pub open spec fn spec_static_x(self, len: nat, index: nat) -> int {
        self.center - (self.stride() * len) / 2 + self.stride() * index + self.gap / 2
    }

    /// Left edge of the member at `index` in a row of `len` members during
    /// the transition `t`.
    pub open spec fn spec_member_x(self, len: nat, index: nat, t: Transition) -> int {
        self.center - spec_scale(self.stride(), t.length_num(len), 2 * t.length_den())
            + self.stride() * index + self.gap / 2 + t.displacement(self.stride(), index)
    }

    /// Left edge of the member at `index` in a row of `len` members during
    /// the transition `t`.
    pub fn member_x(&self, len: usize, index: usize, t: Transition) -> (x: i64)
        requires
            t.wf(),
            len <= ROW_CAPACITY,
            index <= ROW_CAPACITY,
            fits_i64(self.spec_member_x(len as nat, index as nat, t)),
        ensures
            x == self.spec_member_x(len as nat, index as nat, t),
    {
        let stride = self.width as i128 + self.gap as i128;
        proof {
            lemma_mul_bounded(len as int, t.length_den(), 0x10_0000, 0xffff_ffff);
            lemma_mul_bounded(stride as int, index as int, 0x2_0000_0000, 0x10_0000);
        }
        let (num, den, shift): (i128, i128, i128) = match t {
            Transition::Rest => (len as i128, 1, 0),
            Transition::Insert { at, progress } => {
                let shift = if index >= at {
                    scale(stride, progress.num as i128, progress.den as i128)
                } else {
                    0
                };
                (len as i128 * progress.den as i128 + progress.num as i128, progress.den as i128, shift)
            },
            Transition::Remove { at, progress } => {
                let rest = progress.den as i128 - progress.num as i128;
                let shift = if index >= at {
                    scale(stride, rest, progress.den as i128)
                } else {
                    0
                };
                (len as i128 * progress.den as i128 + rest, progress.den as i128, shift)
            },
        };
        assert(num == t.length_num(len as nat));
        assert(den == t.length_den());
        assert(shift == t.displacement(self.stride(), index as nat));
        let half = scale(stride, num, 2 * den);
        let x = self.center as i128 - half + stride * index as i128 + (self.gap / 2) as i128
            + shift;
        x as i64
    }
}

/// No member stands further left of the centre than the whole row is long
/// when one longer, nor further right than its own index plus two strides.
pub proof fn lemma_member_x_bounds(row: Row, len: nat, index: nat, t: Transition)
    requires
        t.wf(),
    ensures
        row.center - row.stride() * (len + 1) <= row.spec_member_x(len, index, t) <= row.center
            + row.stride() * (index + 2),
{
    let s = row.stride();
    let num = t.length_num(len);
    let den = t.length_den();
    assert(0 <= num <= (len + 1) * den) by (nonlinear_arith)
        requires
            num == len * den + (num - len * den),
            0 <= num - len * den <= den,
            den > 0,
    ;
    assert(0 <= s * num <= (s * (len + 1)) * (2 * den)) by (nonlinear_arith)
        requires
            0 <= num <= (len + 1) * den,
            s >= 0,
            den > 0,
    ;
    lemma_quotient_bounded(s * num, 2 * den, s * (len + 1));
    match t {
        Transition::Rest => {},
        Transition::Insert { at, progress } => {
            lemma_scale_between(s, progress.num as int, progress.den as int);
        },
        Transition::Remove { at, progress } => {
            lemma_scale_between(s, progress.den - progress.num, progress.den as int);
        },
    }
    assert(s * (index + 2) == s * index + s + s) by (nonlinear_arith);
    assert(0 <= row.gap / 2 <= s);
    assert(s * index >= 0) by (nonlinear_arith)
        requires
            s >= 0,
            index >= 0,
    ;
}

/// A row at rest is centred: a member and the one that stands as far from
/// the other end lie equally far from the centre, on either side of it. The
/// halves are exact where the length of the row and the gap are even.
pub proof fn lemma_row_centred(row: Row, len: nat, index: nat)
    requires
        index < len,
        (row.stride() * len) % 2 == 0,
        row.gap % 2 == 0,
    ensures
        row.spec_static_x(len, index) - row.center == row.center - (row.spec_static_x(
            len,
            (len - 1 - index) as nat,
        ) + row.width),
{
    let s = row.stride();
    assert(s * index + s * (len - 1 - index) == s * len - s) by (nonlinear_arith);
}

/// A row at rest is laid out by the plain centred formula.
pub proof fn lemma_rest_is_static(row: Row, len: nat, index: nat)
    ensures
        row.spec_member_x(len, index, Transition::Rest) == row.spec_static_x(len, index),
{
}

/// An insertion is continuous at both ends: at progress zero every member
/// stands where it does in the row at rest; at progress one every member
/// stands where it does in the row at rest that is one longer, the members at
/// or after the insertion one index further.
pub proof fn lemma_insert_continuous(row: Row, len: nat, index: nat, at: usize, progress: Fraction)
    requires
        progress.wf(),
    ensures
        progress.num == 0 ==> row.spec_member_x(len, index, Transition::Insert { at, progress })
            == row.spec_static_x(len, index),
        progress.num == progress.den ==> row.spec_member_x(
            len,
            index,
            Transition::Insert { at, progress },
        ) == row.spec_static_x(len + 1, if index >= at { index + 1 } else { index }),
{
    let s = row.stride();
    let d = progress.den as int;
    lemma_scale_whole(s, 1, d);
    assert(1 * d == d);
    if progress.num == 0 {
        lemma_halving(s, len as int, d);
    }
    if progress.num == progress.den {
        assert(len * d + d == (len + 1) * d) by (nonlinear_arith);
        lemma_halving(s, (len + 1) as int, d);
        assert(s * (index + 1) == s * index + s) by (nonlinear_arith);
    }
}

/// A removal is continuous at both ends: at progress zero every member stands
/// where it did in the row at rest that was one longer, the members at or
/// after the removal one index further; at progress one every member stands
/// where it does in the row at rest.
pub proof fn lemma_remove_continuous(row: Row, len: nat, index: nat, at: usize, progress: Fraction)
    requires
        progress.wf(),
    ensures
        progress.num == 0 ==> row.spec_member_x(len, index, Transition::Remove { at, progress })
            == row.spec_static_x(len + 1, if index >= at { index + 1 } else { index }),
        progress.num == progress.den ==> row.spec_member_x(
            len,
            index,
            Transition::Remove { at, progress },
        ) == row.spec_static_x(len, index),
{
    let s = row.stride();
    let d = progress.den as int;
    lemma_scale_whole(s, 1, d);
    assert(1 * d == d);
    if progress.num == 0 {
        assert(len * d + d == (len + 1) * d) by (nonlinear_arith);
        lemma_halving(s, (len + 1) as int, d);
        assert(s * (index + 1) == s * index + s) by (nonlinear_arith);
    }
    if progress.num == progress.den {
        lemma_halving(s, len as int, d);
    }
}

/// Half of `s` times a whole length `n`, written over the denominator `d`.
proof fn lemma_halving(s: int, n: int, d: int)
    requires
        s >= 0,
        n >= 0,
        d > 0,
    ensures
        spec_scale(s, n * d, 2 * d) == (s * n) / 2,
{
    assert(s * n >= 0) by (nonlinear_arith)
        requires
            s >= 0,
            n >= 0,
    ;
    lemma_div_multiples_vanish_quotient(d, s * n, 2);
    assert(s * (n * d) == d * (s * n)) by (nonlinear_arith);
    assert(2 * d == d * 2);
}

} // verus!
