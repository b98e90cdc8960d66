//! Where the hand and the battlefield put their members on the canvas.
//!
//! The hand is one centred row below the middle of the canvas. The
//! battlefield is one centred row above it: the friends, then the foes, with
//! some more room between the two teams. The middle of the card at index `i`
//! of a hand of `n` cards at rest lies `220 * i - 110 * (n - 1)` right of
//! the middle of the canvas.

use vstd::prelude::*;
use crate::arith::fits_i64;
use crate::clock::Fraction;
use crate::geometry::{ScreenDimensions, Vec2};
use crate::model::{VisElemPos, CARD_WIDTH};
use crate::pin_point::PinPoint;
use crate::reflow::{lemma_member_x_bounds, Row, Transition, ROW_CAPACITY};
use crate::store::{canvas_frame, place, Store};

verus! {

/// Height of the middle of the hand below the middle of the canvas.
pub const HAND_Y: i64 = 225;

/// Height of the middle of the battlefield below the middle of the canvas.
pub const BATTLEFIELD_Y: i64 = -225;

/// Height of the middle of the insertion positions below the middle of the canvas.
pub const INSERT_POS_Y: i64 = -40;

/// Room between two neighbours of a row.
pub const CARD_GAP: u32 = 20;

/// Additional room between the last friend and the first foe.
pub const TEAM_GAP: i64 = 60;

/// Depth of the cards and the creatures.
pub const CARD_DEPTH: u32 = 1000;

/// Depth of the insertion positions: in front of the cards.
pub const INSERT_POS_DEPTH: u32 = 900;

/// Depth of what is in flight: in front of everything else.
pub const FLOATING_DEPTH: u32 = 800;

/// How many ticks a card takes from the hand to the battlefield.
pub const TRANSFER_DURATION: u32 = 500_000;

/// The farthest that a position of this layout lies from the middle of the canvas.
pub const LAYOUT_REACH: i64 = 0x1000_0000_0000;

/// The farthest that a member of a row lies from the middle of the canvas.
pub const ROW_REACH: i64 = 0x1000_0000;

/// The widest and the highest canvas that is laid out.
pub const CANVAS_LIMIT: i64 = 0xffff_ffff;

/// The row that cards and creatures stand in.
pub open spec fn card_row() -> Row {
    Row { center: 0, width: CARD_WIDTH as u32, gap: CARD_GAP }
}

/// A position without a parent, measured from the middle of the canvas.
pub open spec fn from_middle(depth: u32, pin_point: PinPoint, x: int, y: int) -> VisElemPos {
    VisElemPos {
        depth,
        pin_point,
        coords: Vec2 { x: x as i64, y: y as i64 },
        parent: None,
        in_parent_pin_point: PinPoint { x: 500, y: 500 },
    }
}

/// Position of the card at `index` in a hand of `len` cards.
pub open spec fn spec_hand_pos(len: nat, index: nat, t: Transition) -> VisElemPos {
    from_middle(
        CARD_DEPTH,
        PinPoint { x: 0, y: 500 },
        card_row().spec_member_x(len, index, t),
        HAND_Y as int,
    )
}

/// Position of the friend at `index`.
pub open spec fn spec_friend_pos(friends: nat, foes: nat, index: nat, t: Transition) -> VisElemPos {
    from_middle(
        CARD_DEPTH,
        PinPoint { x: 0, y: 500 },
        card_row().spec_member_x(friends + foes, index, t) - TEAM_GAP / 2,
        BATTLEFIELD_Y as int,
    )
}

/// Position of the foe at `index`.
pub open spec fn spec_foe_pos(friends: nat, foes: nat, index: nat, t: Transition) -> VisElemPos {
    from_middle(
        CARD_DEPTH,
        PinPoint { x: 0, y: 500 },
        card_row().spec_member_x(friends + foes, friends + index, t) + TEAM_GAP / 2,
        BATTLEFIELD_Y as int,
    )
}

/// Position of the place where a friend can be inserted at `index`: the
/// middle of the gap before the friend that stands there now.
pub open spec fn spec_insert_pos_pos(friends: nat, foes: nat, index: nat) -> VisElemPos {
    from_middle(
        INSERT_POS_DEPTH,
        PinPoint { x: 500, y: 500 },
        card_row().spec_member_x(friends + foes, index, Transition::Rest) - TEAM_GAP / 2 - CARD_GAP
            / 2,
        INSERT_POS_Y as int,
    )
}

/// A position that this layout can resolve on every canvas it is made for:
/// it has no parent, lies within reach of its parent's pin point, and its
/// pin points lie in the rectangles they refer to.
pub open spec fn tame(pos: VisElemPos) -> bool {
    &&& pos.parent is None
    &&& -LAYOUT_REACH <= pos.coords.x <= LAYOUT_REACH
    &&& -LAYOUT_REACH <= pos.coords.y <= LAYOUT_REACH
    &&& 0 <= pos.pin_point.x <= 1000
    &&& 0 <= pos.pin_point.y <= 1000
    &&& 0 <= pos.in_parent_pin_point.x <= 1000
    &&& 0 <= pos.in_parent_pin_point.y <= 1000
}

/// A tame position that lies as near the middle of the canvas as the
/// members of a row do.
pub open spec fn snug(pos: VisElemPos) -> bool {
    &&& tame(pos)
    &&& -ROW_REACH <= pos.coords.x <= ROW_REACH
    &&& -ROW_REACH <= pos.coords.y <= ROW_REACH
}

/// An extent that this layout can resolve.
pub open spec fn tame_extent(dims: ScreenDimensions) -> bool {
    0 <= dims.x <= CANVAS_LIMIT && 0 <= dims.y <= CANVAS_LIMIT
}

/// The positions of the rows are tame, and lie where the formula of the row says.
pub proof fn lemma_row_positions_tame(friends: nat, foes: nat, len: nat, index: nat, t: Transition)
    requires
        t.wf(),
        friends + foes <= ROW_CAPACITY,
        len <= ROW_CAPACITY,
        index <= ROW_CAPACITY,
    ensures
        snug(spec_hand_pos(len, index, t)),
        snug(spec_friend_pos(friends, foes, index, t)),
        snug(spec_insert_pos_pos(friends, foes, index)),
        index <= foes ==> snug(spec_foe_pos(friends, foes, index, t)),
        tame(spec_hand_pos(len, index, t)),
        spec_hand_pos(len, index, t).coords.x == card_row().spec_member_x(len, index, t),
        fits_i64(card_row().spec_member_x(len, index, t)),
        fits_i64(card_row().spec_member_x(friends + foes, index, t)),
        tame(spec_friend_pos(friends, foes, index, t)),
        spec_friend_pos(friends, foes, index, t).coords.x == card_row().spec_member_x(
            friends + foes,
            index,
            t,
        ) - 30,
        tame(spec_insert_pos_pos(friends, foes, index)),
        spec_insert_pos_pos(friends, foes, index).coords.x == card_row().spec_member_x(
            friends + foes,
            index,
            Transition::Rest,
        ) - 40,
        index <= foes ==> fits_i64(card_row().spec_member_x(friends + foes, friends + index, t)),
        index <= foes ==> tame(spec_foe_pos(friends, foes, index, t)),
        index <= foes ==> spec_foe_pos(friends, foes, index, t).coords.x
            == card_row().spec_member_x(friends + foes, friends + index, t) + 30,
{
    let s = card_row().stride();
    assert(s == 220);
    lemma_member_x_bounds(card_row(), len, index, t);
    lemma_member_x_bounds(card_row(), friends + foes, index, t);
    lemma_member_x_bounds(card_row(), friends + foes, index, Transition::Rest);
    lemma_member_x_bounds(card_row(), friends + foes, friends + index, t);
    assert(s * (len + 1) == 220 * (len + 1));
    assert(s * (index + 2) == 220 * (index + 2));
    assert(s * (friends + foes + 1) == 220 * (friends + foes + 1));
    assert(s * (friends + index + 2) == 220 * (friends + index + 2));
}

/// The hand at rest is centred on the middle of the canvas, its cards one
/// stride apart: the middle of the card at `index` lies
/// `220 * index - 110 * (len - 1)` right of the middle of the canvas.
pub proof fn lemma_hand_centred(len: nat, index: nat)
    requires
        len <= ROW_CAPACITY,
        index <= ROW_CAPACITY,
    ensures
        spec_hand_pos(len, index, Transition::Rest).coords.x + CARD_WIDTH / 2 == 220 * index - 110
            * (len - 1),
        spec_hand_pos(len, index, Transition::Rest).coords.y == HAND_Y,
        spec_hand_pos(len, index, Transition::Rest).pin_point == (PinPoint { x: 0, y: 500 }),
        spec_hand_pos(len, index, Transition::Rest).in_parent_pin_point == (PinPoint {
            x: 500,
            y: 500,
        }),
{
    lemma_row_positions_tame(0, 0, len, index, Transition::Rest);
    let s = card_row().stride();
    assert(s == 220);
    assert(s * len == 220 * len);
    assert(s * index == 220 * index);
    assert(crate::arith::spec_scale(s, len as int, 2) == 110 * len);
    assert(card_row().spec_member_x(len, index, Transition::Rest) == 220 * index - 110 * len + 10);
}

/// The battlefield at rest is centred on the middle of the canvas: the
/// friends, the room between the teams, and the foes, the creatures of a
/// team one stride apart.
pub proof fn lemma_battlefield_centred(friends: nat, foes: nat, index: nat)
    requires
        friends + foes <= ROW_CAPACITY,
        index <= ROW_CAPACITY,
    ensures
        spec_friend_pos(friends, foes, index, Transition::Rest).coords.x + CARD_WIDTH / 2 == 220
            * index - 110 * (friends + foes - 1) - TEAM_GAP / 2,
        index <= foes ==> spec_foe_pos(friends, foes, index, Transition::Rest).coords.x + CARD_WIDTH
            / 2 == 220 * (friends + index) - 110 * (friends + foes - 1) + TEAM_GAP / 2,
        spec_insert_pos_pos(friends, foes, index).coords.x == spec_friend_pos(
            friends,
            foes,
            index,
            Transition::Rest,
        ).coords.x - CARD_GAP / 2,
{
    lemma_row_positions_tame(friends, foes, 0, index, Transition::Rest);
    let s = card_row().stride();
    let n = friends + foes;
    assert(s == 220);
    assert(s * n == 220 * n);
    assert(s * index == 220 * index);
    assert(s * (friends + index) == 220 * (friends + index));
    assert(crate::arith::spec_scale(s, n as int, 2) == 110 * n);
    assert(card_row().spec_member_x(n, index, Transition::Rest) == 220 * index - 110 * n + 10);
    assert(card_row().spec_member_x(n, friends + index, Transition::Rest) == 220 * (friends + index)
        - 110 * n + 10);
}

/// The hand reflows continuously while a card leaves it: when the card has
/// just left, each card that is left lies where it lay in the hand that was
/// one longer, and when the card has arrived, where it lies in the hand at
/// rest.
pub proof fn lemma_hand_reflow_continuous(len: nat, index: nat, at: usize, progress: Fraction)
    requires
        progress.wf(),
    ensures
        progress.num == 0 ==> spec_hand_pos(len, index, Transition::Remove { at, progress })
            == spec_hand_pos(
            len + 1,
            if index >= at {
                index + 1
            } else {
                index
            },
            Transition::Rest,
        ),
        progress.num == progress.den ==> spec_hand_pos(
            len,
            index,
            Transition::Remove { at, progress },
        ) == spec_hand_pos(len, index, Transition::Rest),
{
    crate::reflow::lemma_remove_continuous(card_row(), len, index, at, progress);
}

/// The battlefield reflows continuously while a creature card comes to it:
/// when the card has just left the hand, each creature lies where it lies on
/// the battlefield at rest, and when the card has arrived, where it lies on
/// the battlefield that has one friend more, the friends at or after the
/// insertion one index further.
pub proof fn lemma_battlefield_reflow_continuous(
    friends: nat,
    foes: nat,
    index: nat,
    at: usize,
    progress: Fraction,
)
    requires
        progress.wf(),
        at <= friends,
    ensures
        progress.num == 0 ==> spec_friend_pos(
            friends,
            foes,
            index,
            Transition::Insert { at, progress },
        ) == spec_friend_pos(friends, foes, index, Transition::Rest),
        progress.num == 0 ==> spec_foe_pos(friends, foes, index, Transition::Insert { at, progress })
            == spec_foe_pos(friends, foes, index, Transition::Rest),
        progress.num == progress.den ==> spec_friend_pos(
            friends,
            foes,
            index,
            Transition::Insert { at, progress },
        ) == spec_friend_pos(
            friends + 1,
            foes,
            if index >= at {
                index + 1
            } else {
                index
            },
            Transition::Rest,
        ),
        progress.num == progress.den ==> spec_foe_pos(
            friends,
            foes,
            index,
            Transition::Insert { at, progress },
        ) == spec_foe_pos(friends + 1, foes, index, Transition::Rest),
{
    crate::reflow::lemma_insert_continuous(card_row(), friends + foes, index, at, progress);
    crate::reflow::lemma_insert_continuous(card_row(), friends + foes, friends + index, at, progress);
}

/// A tame position puts what it places within twice the reach of the layout,
/// on every canvas within the limit.
pub proof fn lemma_tame_place(pos: VisElemPos, dims: ScreenDimensions, canvas: ScreenDimensions)
    requires
        tame(pos),
        tame_extent(dims),
        tame_extent(canvas),
    ensures
        -2 * LAYOUT_REACH <= place(canvas_frame(canvas), pos, dims).x <= 2 * LAYOUT_REACH,
        -2 * LAYOUT_REACH <= place(canvas_frame(canvas), pos, dims).y <= 2 * LAYOUT_REACH,
        place(canvas_frame(canvas), pos, dims).w == dims.x,
        place(canvas_frame(canvas), pos, dims).h == dims.y,
        place(canvas_frame(canvas), pos, dims).fits(),
{
    crate::arith::lemma_scale_between(canvas.x as int, pos.in_parent_pin_point.x as int, 1000);
    crate::arith::lemma_scale_between(canvas.y as int, pos.in_parent_pin_point.y as int, 1000);
    crate::arith::lemma_scale_between(dims.x as int, pos.pin_point.x as int, 1000);
    crate::arith::lemma_scale_between(dims.y as int, pos.pin_point.y as int, 1000);
}

/// A tame position resolves on every canvas within the limit, to a rectangle
/// that lies within twice the reach of the layout.
pub proof fn lemma_tame_resolves(
    store: Store,
    pos: VisElemPos,
    dims: ScreenDimensions,
    canvas: ScreenDimensions,
)
    requires
        store.wf(),
        tame(pos),
        tame_extent(dims),
        tame_extent(canvas),
    ensures
        store.resolvable(pos, dims, canvas),
        store.spec_actual_rect(pos, dims, canvas) == place(canvas_frame(canvas), pos, dims),
        -2 * LAYOUT_REACH <= place(canvas_frame(canvas), pos, dims).x <= 2 * LAYOUT_REACH,
        -2 * LAYOUT_REACH <= place(canvas_frame(canvas), pos, dims).y <= 2 * LAYOUT_REACH,
{
    store.lemma_root(pos, dims, canvas);
    lemma_tame_place(pos, dims, canvas);
}

/// A position without a parent, measured from the middle of the canvas.
fn middle_pos(depth: u32, pin_point: PinPoint, x: i64, y: i64) -> (pos: VisElemPos)
    ensures
        pos == from_middle(depth, pin_point, x as int, y as int),
{
    VisElemPos {
        depth,
        pin_point,
        coords: Vec2 { x, y },
        parent: None,
        in_parent_pin_point: PinPoint::center_center(),
    }
}

/// The row that cards and creatures stand in.
fn the_card_row() -> (row: Row)
    ensures
        row == card_row(),
{
    Row { center: 0, width: CARD_WIDTH as u32, gap: CARD_GAP }
}

/// Position of the card at `index` in a hand of `len` cards.
pub fn hand_pos(len: usize, index: usize, t: Transition) -> (pos: VisElemPos)
    requires
        t.wf(),
        len <= ROW_CAPACITY,
        index <= ROW_CAPACITY,
    ensures
        pos == spec_hand_pos(len as nat, index as nat, t),
{
    proof {
        lemma_row_positions_tame(0, 0, len as nat, index as nat, t);
    }
    let x = the_card_row().member_x(len, index, t);
    middle_pos(CARD_DEPTH, PinPoint::center_left(), x, HAND_Y)
}

/// Position of the friend at `index`.
pub fn friend_pos(friends: usize, foes: usize, index: usize, t: Transition) -> (pos: VisElemPos)
    requires
        t.wf(),
        friends + foes <= ROW_CAPACITY,
        index <= ROW_CAPACITY,
    ensures
        pos == spec_friend_pos(friends as nat, foes as nat, index as nat, t),
{
    proof {
        lemma_row_positions_tame(friends as nat, foes as nat, 0, index as nat, t);
    }
    let x = the_card_row().member_x(friends + foes, index, t);
    middle_pos(CARD_DEPTH, PinPoint::center_left(), x - TEAM_GAP / 2, BATTLEFIELD_Y)
}

/// Position of the foe at `index`.
pub fn foe_pos(friends: usize, foes: usize, index: usize, t: Transition) -> (pos: VisElemPos)
    requires
        t.wf(),
        friends + foes <= ROW_CAPACITY,
        index <= foes,
    ensures
        pos == spec_foe_pos(friends as nat, foes as nat, index as nat, t),
{
    proof {
        lemma_row_positions_tame(friends as nat, foes as nat, 0, index as nat, t);
    }
    let x = the_card_row().member_x(friends + foes, friends + index, t);
    middle_pos(CARD_DEPTH, PinPoint::center_left(), x + TEAM_GAP / 2, BATTLEFIELD_Y)
}

/// Position of the place where a friend can be inserted at `index`.
pub fn insert_pos_pos(friends: usize, foes: usize, index: usize) -> (pos: VisElemPos)
    requires
        friends + foes <= ROW_CAPACITY,
        index <= ROW_CAPACITY,
    ensures
        pos == spec_insert_pos_pos(friends as nat, foes as nat, index as nat),
{
    proof {
        lemma_row_positions_tame(friends as nat, foes as nat, 0, index as nat, Transition::Rest);
    }
    let x = the_card_row().member_x(friends + foes, index, Transition::Rest);
    middle_pos(
        INSERT_POS_DEPTH,
        PinPoint::center_center(),
        x - TEAM_GAP / 2 - (CARD_GAP / 2) as i64,
        INSERT_POS_Y,
    )
}

} // verus!
