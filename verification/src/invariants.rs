//! Every event leaves a well-formed game well formed.

use vstd::prelude::*;
use crate::clock::{lemma_lerp_ends, AnimationClock};
use crate::draw::drawable;
use crate::id_generator::Id;
use crate::interface::distinct_handles;
use crate::layout::{
    lemma_battlefield_reflow_continuous, lemma_hand_reflow_continuous, lemma_row_positions_tame,
    lemma_tame_place, tame, TRANSFER_DURATION,
};
use crate::model::{BattlefieldInsertPos, BattlefieldPos, Card, EntityKind, VisElemWhat};
use crate::reflow::Transition;
use crate::rules::{issued_before, lemma_with_hover, shown_frame, Action, GameView, Role};
use crate::store::{canvas_frame, place};

verus! {

broadcast use {Id::lemma_of_value, Id::lemma_value_of};

/// Whether the set holds what the sequence lists, and nothing else.
pub open spec fn lists(ids: Seq<u64>, dom: Set<u64>) -> bool {
    &&& forall|i: int| 0 <= i < ids.len() ==> dom.contains(#[trigger] ids[i])
    &&& forall|k: u64| #[trigger]
        dom.contains(k) ==> exists|i: int| 0 <= i < ids.len() && #[trigger] ids[i] == k
}

/// What is inserted in a sequence is added to the set of what it lists.
pub proof fn lemma_lists_insert(ids: Seq<u64>, dom: Set<u64>, at: int, k: u64)
    requires
        lists(ids, dom),
        0 <= at <= ids.len(),
    ensures
        lists(ids.insert(at, k), dom.insert(k)),
{
    let after = ids.insert(at, k);
    assert forall|j: u64| #[trigger] dom.insert(k).contains(j) implies exists|i: int|
        0 <= i < after.len() && #[trigger] after[i] == j by {
        if j == k {
            assert(after[at] == k);
        } else {
            assert(dom.contains(j));
            let i = choose|i: int| 0 <= i < ids.len() && #[trigger] ids[i] == j;
            if i < at {
                assert(after[i] == j);
            } else {
                assert(after[i + 1] == j);
            }
        }
    }
}

/// What is removed from a sequence without duplicates leaves the set of
/// what it lists.
pub proof fn lemma_lists_remove(ids: Seq<u64>, dom: Set<u64>, at: int)
    requires
        lists(ids, dom),
        ids.no_duplicates(),
        0 <= at < ids.len(),
    ensures
        lists(ids.remove(at), dom.remove(ids[at])),
{
    let after = ids.remove(at);
    assert forall|j: u64| #[trigger] dom.remove(ids[at]).contains(j) implies exists|i: int|
        0 <= i < after.len() && #[trigger] after[i] == j by {
        assert(dom.contains(j));
        let i = choose|i: int| 0 <= i < ids.len() && #[trigger] ids[i] == j;
        if i < at {
            assert(after[i] == j);
        } else {
            assert(after[i - 1] == j);
        }
    }
    assert forall|i: int| 0 <= i < after.len() implies dom.remove(ids[at]).contains(
        #[trigger] after[i],
    ) by {
        if i < at {
            assert(after[i] == ids[i]);
        } else {
            assert(after[i] == ids[i + 1]);
        }
    }
}

/// A handle that is issued next can be inserted among distinct handles
/// that were issued before it.
pub proof fn lemma_insert_fresh(ids: Seq<u64>, at: int, bound: int)
    requires
        issued_before(ids, bound),
        ids.no_duplicates(),
        0 <= at <= ids.len(),
        0 <= bound < u64::MAX,
    ensures
        issued_before(ids.insert(at, bound as u64), bound + 1),
        ids.insert(at, bound as u64).no_duplicates(),
{
    let after = ids.insert(at, bound as u64);
    assert forall|i: int| 0 <= i < after.len() implies #[trigger] after[i] < bound + 1 by {
        if i < at {
            assert(after[i] == ids[i]);
        } else if i > at {
            assert(after[i] == ids[i - 1]);
        }
    }
    assert forall|i: int, j: int| 0 <= i < after.len() && 0 <= j < after.len() && i != j implies after[i]
        != after[j] by {
        let oi = if i < at {
            i
        } else {
            i - 1
        };
        let oj = if j < at {
            j
        } else {
            j - 1
        };
        if i != at {
            assert(after[i] == ids[oi]);
        }
        if j != at {
            assert(after[j] == ids[oj]);
        }
    }
}

/// Distinct handles stay distinct when one of them is removed.
pub proof fn lemma_remove_keeps(ids: Seq<u64>, at: int, bound: int)
    requires
        issued_before(ids, bound),
        ids.no_duplicates(),
        0 <= at < ids.len(),
    ensures
        issued_before(ids.remove(at), bound),
        ids.remove(at).no_duplicates(),
        !ids.remove(at).contains(ids[at]),
{
    let after = ids.remove(at);
    assert forall|i: int| 0 <= i < after.len() implies #[trigger] after[i] < bound && after[i]
        != ids[at] by {
        if i < at {
            assert(after[i] == ids[i]);
        } else {
            assert(after[i] == ids[i + 1]);
        }
    }
    assert forall|i: int, j: int| 0 <= i < after.len() && 0 <= j < after.len() && i != j implies after[i]
        != after[j] by {
        let oi = if i < at {
            i
        } else {
            i + 1
        };
        let oj = if j < at {
            j
        } else {
            j + 1
        };
        assert(after[i] == ids[oi]);
        assert(after[j] == ids[oj]);
    }
}

/// Distinct handles stay distinct when one that is not among them is added.
pub proof fn lemma_push_other(ids: Seq<u64>, k: u64, bound: int)
    requires
        issued_before(ids, bound),
        ids.no_duplicates(),
        !ids.contains(k),
        k < bound,
    ensures
        issued_before(ids.push(k), bound),
        ids.push(k).no_duplicates(),
{
    let after = ids.push(k);
    assert forall|i: int, j: int| 0 <= i < after.len() && 0 <= j < after.len() && i != j implies after[i]
        != after[j] by {
        if i < ids.len() {
            assert(ids.contains(ids[i]));
        }
        if j < ids.len() {
            assert(ids.contains(ids[j]));
        }
    }
}

/// A game with nothing in it is well formed.
pub proof fn lemma_empty_wf(width: u32, height: u32)
    ensures
        GameView::empty(width, height).wf(),
{
    let v = GameView::empty(width, height);
    assert(v.count() == 0);
    assert(v.hover() is None);
}

/// Whether a state is well formed but for what is hovered does not depend
/// on what is hovered, on where the cursor is, or on the extent of the
/// canvas, as long as that is within the limit; nor do the visual elements.
pub proof fn lemma_wf_core_reframed(
    v: GameView,
    canvas: crate::geometry::ScreenDimensions,
    cursor: Option<crate::geometry::ScreenCoords>,
    hovered: Option<usize>,
)
    requires
        v.wf_core(),
        crate::layout::tame_extent(canvas),
    ensures
        (GameView { canvas, cursor, hovered, ..v }).wf_core(),
        (GameView { canvas, cursor, hovered, ..v }).id_values() == v.id_values(),
        forall|idx: int|
            #[trigger] (GameView { canvas, cursor, hovered, ..v }).elem_at(idx) == v.elem_at(idx),
        forall|idx: int|
            #[trigger] (GameView { canvas, cursor, hovered, ..v }).id_at(idx) == v.id_at(idx),
{
    let w = GameView { canvas, cursor, hovered, ..v };
    assert forall|idx: int| w.id_at(idx) == v.id_at(idx) by {}
    assert forall|idx: int| w.elem_at(idx) == v.elem_at(idx) by {}
    assert(w.id_values() =~= v.id_values());
}

/// What can be selected is a card of the hand.
pub proof fn lemma_selectable_is_hand_card(v: GameView, idx: int)
    requires
        v.wf_core(),
        0 <= idx < v.count(),
        v.elem_at(idx).selectable,
    ensures
        idx < v.hand.len(),
        v.role_at(idx) == Role::HandCard(idx as usize),
{
}

/// The handles that are issued next, in their order.
pub open spec fn next_ids(issued: nat, n: nat) -> Seq<Id> {
    Seq::new(n, |j: int| Id::of((issued + j) as u64))
}

/// Handles that are issued next can be added to distinct handles that were
/// issued before them.
pub proof fn lemma_append_fresh(ids: Seq<u64>, fresh: Seq<u64>, bound: int)
    requires
        issued_before(ids, bound),
        ids.no_duplicates(),
        0 <= bound,
        bound + fresh.len() <= u64::MAX,
        forall|j: int| 0 <= j < fresh.len() ==> #[trigger] fresh[j] == bound + j,
    ensures
        issued_before(ids + fresh, bound + fresh.len()),
        (ids + fresh).no_duplicates(),
{
    let after = ids + fresh;
    assert forall|i: int| 0 <= i < after.len() implies #[trigger] after[i] < bound + fresh.len() by {
        if i < ids.len() {
            assert(after[i] == ids[i]);
        } else {
            assert(after[i] == fresh[i - ids.len()]);
        }
    }
    assert forall|i: int, j: int| 0 <= i < after.len() && 0 <= j < after.len() && i != j implies after[i]
        != after[j] by {
        if i < ids.len() {
            assert(after[i] == ids[i]);
        } else {
            assert(after[i] == fresh[i - ids.len()]);
        }
        if j < ids.len() {
            assert(after[j] == ids[j]);
        } else {
            assert(after[j] == fresh[j - ids.len()]);
        }
    }
}

/// The state after the button was pressed where that selects a creature
/// card, before what is hovered is brought up to date.
pub open spec fn armed_with_slots(v: GameView) -> GameView {
    GameView {
        selected: v.hovered,
        insert_pos_ids: next_ids(v.issued, v.friends.len() + 1),
        issued: v.issued + v.friends.len() + 1,
        ..v
    }
}

/// The state while the insertion positions are made, `n` of them being there.
pub open spec fn arming(v: GameView, n: nat) -> GameView {
    GameView {
        selected: v.hovered,
        insert_pos_ids: next_ids(v.issued, n),
        issued: v.issued + n,
        ..v
    }
}

/// Selecting the hovered card leaves the handles of the game as they are.
pub proof fn lemma_armed_ids(v: GameView)
    requires
        v.wf(),
        v.can_arm(),
    ensures
        arming(v, 0) == (GameView { selected: v.hovered, ..v }),
        arming(v, 0).id_values() == v.id_values(),
{
    assert(v.insert_pos_ids.len() == 0);
    assert(arming(v, 0).insert_pos_ids =~= v.insert_pos_ids);
    assert(arming(v, 0) =~= (GameView { selected: v.hovered, ..v }));
    assert(arming(v, 0).id_values() =~= v.id_values());
}

/// Each insertion position that is made adds its handle to those of the game.
pub proof fn lemma_arming_step(v: GameView, n: nat)
    requires
        v.wf(),
        v.can_arm(),
        v.can_issue(v.friends.len() + 1),
        n <= v.friends.len(),
    ensures
        arming(v, 0).id_values() == v.id_values(),
        arming(v, n + 1).id_values() == arming(v, n).id_values().insert(
            arming(v, n).count() as int,
            (v.issued + n) as u64,
        ),
        arming(v, n).count() == v.count() + n,
        arming(v, (v.friends.len() + 1) as nat) == armed_with_slots(v),
        arming(v, (n + 1) as nat).insert_pos_ids == arming(v, n).insert_pos_ids.push(
            Id::of((v.issued + n) as u64),
        ),
{
    assert(v.insert_pos_ids.len() == 0);
    assert(arming(v, 0).id_values() =~= v.id_values());
    let a = arming(v, n);
    let b = arming(v, n + 1);
    assert(b.insert_pos_ids =~= a.insert_pos_ids.push(Id::of((v.issued + n) as u64)));
    assert(b.id_values() =~= a.id_values().insert(a.count() as int, (v.issued + n) as u64));
}

/// Pressing the button keeps the game well formed.
pub proof fn lemma_pressed_wf(v: GameView)
    requires
        v.wf(),
        v.can_issue(v.press_needs()),
    ensures
        v.pressed().wf(),
        v.can_arm() ==> (v.hovered matches Some(h) && h < v.hand.len()),
        v.can_arm() && v.hand[v.hovered->0 as int].card is Entity ==> armed_with_slots(v).wf_core()
            && v.pressed() == armed_with_slots(v).with_hover(),
        v.can_arm() && v.hand[v.hovered->0 as int].card is Food ==> (GameView {
            selected: v.hovered,
            ..v
        }).wf_core() && v.pressed() == (GameView { selected: v.hovered, ..v }).with_hover(),
{
    if v.can_arm() {
        let h = v.hovered->0;
        lemma_selectable_is_hand_card(v, h as int);
        let armed = GameView { selected: v.hovered, ..v };
        assert(v.insert_pos_ids.len() == 0);
        if armed.entity_armed() {
            let w = armed_with_slots(v);
            assert(w.insert_pos_ids =~= Seq::new(
                v.friends.len() + 1,
                |j: int| Id::of((v.issued + j) as u64),
            ));
            let fresh = Seq::new(v.friends.len() + 1, |j: int| (v.issued + j) as u64);
            assert(w.id_values() =~= v.id_values() + fresh);
            lemma_append_fresh(v.id_values(), fresh, v.issued as int);
            lemma_with_hover(w);
        } else {
            assert(armed.id_values() =~= v.id_values());
            lemma_with_hover(armed);
        }
    }
}

/// What is a target of an action is an insertion position while a creature
/// card is selected, and a creature while a food card is selected.
pub proof fn lemma_action_in_range(v: GameView)
    requires
        v.wf_core(),
        v.flight is None,
    ensures
        match v.action() {
            None => true,
            Some(Action::Play { from, kind, at }) => {
                &&& v.selected == Some(from)
                &&& v.hand[from as int].card == Card::Entity(kind)
                &&& at <= v.friends.len()
                &&& v.hovered matches Some(h) && v.role_at(h as int) == Role::InsertPos(at)
            },
            Some(Action::Feed { from, target }) => {
                &&& v.selected == Some(from)
                &&& v.hand[from as int].card == Card::Food
                &&& match target {
                    BattlefieldPos::Friend(i) => i < v.friends.len(),
                    BattlefieldPos::Foe(i) => i < v.foes.len(),
                }
                &&& v.hovered matches Some(h) && v.elem_at(h as int).what == (
                VisElemWhat::Entity { where_on_battlefield: target })
            },
        },
{
}

/// The flight that an action starts is as a flight of the game can be.
pub proof fn lemma_launched_wf(v: GameView, a: Action)
    requires
        v.wf_core(),
        v.flight is None,
        v.action() == Some(a),
    ensures
        ({
            let f = v.launched(a);
            &&& f.elem.animation matches Some(anim) && anim.clock.wf() && !anim.clock.spec_is_done()
                && tame(anim.dst_pos) && anim.carried == Some(
                v.hand[v.selected->0 as int].card,
            )
            &&& tame(f.elem.pos)
            &&& !f.elem.selectable
            &&& !f.elem.targetable
            &&& f.vis_elem_id == v.hand[v.selected->0 as int].vis_elem_id
        }),
{
    lemma_action_in_range(v);
    AnimationClock::lemma_start(TRANSFER_DURATION);
    let from = v.selected->0;
    lemma_row_positions_tame(
        v.friends.len(),
        v.foes.len(),
        v.hand.len(),
        from as nat,
        Transition::Rest,
    );
    match a {
        Action::Play { from, kind, at } => {
            lemma_row_positions_tame(
                v.friends.len(),
                v.foes.len(),
                v.hand.len(),
                at as nat,
                Transition::Rest,
            );
        },
        Action::Feed { from, target } => {
            let i = match target {
                BattlefieldPos::Friend(i) => i,
                BattlefieldPos::Foe(i) => i,
            };
            lemma_row_positions_tame(
                v.friends.len(),
                v.foes.len(),
                v.hand.len(),
                i as nat,
                Transition::Rest,
            );
        },
    }
}

/// The state in which nothing is selected and no insertion position exists.
pub open spec fn cleared(v: GameView) -> GameView {
    GameView { selected: None, insert_pos_ids: Seq::empty(), ..v }
}

/// The state after the button was released where that starts a flight,
/// before what is hovered is brought up to date.
pub open spec fn launched_state(v: GameView, a: Action) -> GameView {
    GameView {
        hand: v.hand.remove(v.selected->0 as int),
        flight: Some(v.launched(a)),
        ..cleared(v)
    }
}

/// Taking the insertion positions away keeps the game well formed.
pub proof fn lemma_cleared_wf(v: GameView)
    requires
        v.wf_core(),
        v.flight is None,
    ensures
        cleared(v).wf_core(),
        cleared(v).id_values() == v.id_values().take(cleared(v).count() as int),
{
    let w = cleared(v);
    assert(w.id_values() =~= v.id_values().take(w.count() as int));
}

/// The state while the insertion positions are taken away, `n` of them
/// being left.
pub open spec fn shed(v: GameView, n: int) -> GameView {
    GameView { insert_pos_ids: v.insert_pos_ids.take(n), ..v }
}

/// Each insertion position that is taken away takes its handle from those
/// of the game.
pub proof fn lemma_shed_step(v: GameView, n: int)
    requires
        v.wf_core(),
        v.flight is None,
        0 < n <= v.insert_pos_ids.len(),
    ensures
        shed(v, v.insert_pos_ids.len() as int) == v,
        shed(v, n).id_values().no_duplicates(),
        shed(v, n).id_values().len() > 0,
        shed(v, n).id_values().last() == v.insert_pos_ids[n - 1].value(),
        shed(v, n - 1).id_values() == shed(v, n).id_values().remove(
            shed(v, n).id_values().len() - 1,
        ),
        shed(v, n - 1).insert_pos_ids == shed(v, n).insert_pos_ids.drop_last(),
        shed(v, n).issued == v.issued,
        (GameView { selected: None, ..shed(v, 0) }) == cleared(v),
        cleared(v).id_values() == shed(v, 0).id_values(),
{
    assert(v.insert_pos_ids.take(v.insert_pos_ids.len() as int) =~= v.insert_pos_ids);
    assert(shed(v, v.insert_pos_ids.len() as int) =~= v);
    let a = shed(v, n);
    let b = shed(v, n - 1);
    assert(a.id_values() =~= v.id_values().take(a.count() as int));
    assert(b.id_values() =~= a.id_values().remove(a.id_values().len() - 1));
    assert(b.insert_pos_ids =~= a.insert_pos_ids.drop_last());
    assert(v.insert_pos_ids.take(0) =~= Seq::<Id>::empty());
    assert((GameView { selected: None, ..shed(v, 0) }) =~= cleared(v));
    assert(cleared(v).id_values() =~= shed(v, 0).id_values());
}

/// Releasing the button keeps the game well formed.
pub proof fn lemma_released_wf(v: GameView)
    requires
        v.wf(),
    ensures
        v.released().wf(),
        v.flight is None ==> cleared(v).wf_core(),
        v.flight is None ==> match v.action() {
            None => v.released() == cleared(v).with_hover(),
            Some(a) => {
                &&& (v.selected matches Some(from) && from < v.hand.len())
                &&& launched_state(v, a).wf_core()
                &&& v.released() == launched_state(v, a).with_hover()
                &&& launched_state(v, a).id_values() == cleared(v).id_values().remove(
                    v.selected->0 as int,
                ).push(v.hand[v.selected->0 as int].vis_elem_id.value())
            },
        },
{
    if v.flight is None {
        lemma_action_in_range(v);
        lemma_cleared_wf(v);
        match v.action() {
            None => {
                lemma_with_hover(cleared(v));
            },
            Some(a) => {
                let from = v.selected->0 as int;
                let w = launched_state(v, a);
                let base = cleared(v).id_values();
                lemma_launched_wf(v, a);
                assert(base[from] == v.hand[from].vis_elem_id.value());
                assert(w.id_values() =~= base.remove(from).push(base[from]));
                lemma_remove_keeps(base, from, v.issued as int);
                lemma_push_other(base.remove(from), base[from], v.issued as int);
                assert(w.flight_wf(v.launched(a)));
                lemma_with_hover(w);
            },
        }
    }
}

/// The state with no card in flight.
pub open spec fn grounded(v: GameView) -> GameView {
    GameView { flight: None, ..v }
}

/// The passing of time keeps the game well formed.
pub proof fn lemma_ticked_wf(v: GameView, dt: u64)
    requires
        v.wf(),
        v.can_issue(v.tick_needs(dt)),
    ensures
        v.ticked(dt).wf(),
        v.flight matches Some(f) ==> {
            let clock = f.elem.animation->0.clock.spec_advanced(dt);
            &&& v.insert_pos_ids.len() == 0
            &&& clock.spec_is_done() ==> grounded(v).wf_core() && v.landed().wf_core()
                && grounded(v).id_values() == v.id_values().remove(v.count() - 1)
                && v.id_values()[v.count() - 1] == f.vis_elem_id.value() && match f.elem.what {
                VisElemWhat::FloatingCard {
                    dst: BattlefieldInsertPos(BattlefieldPos::Friend(at)),
                    ..
                } => v.landed().id_values() == grounded(v).id_values().insert(
                    v.hand.len() + at,
                    v.issued as u64,
                ) && f.elem.animation->0.carried matches Some(Card::Entity(_)),
                _ => v.landed().id_values() == grounded(v).id_values(),
            }
            &&& !clock.spec_is_done() ==> v.with_clock(clock).wf_core() && v.with_clock(
                clock,
            ).id_values() == v.id_values()
        },
{
    if let Some(f) = v.flight {
        let a = f.elem.animation->0;
        let clock = a.clock.spec_advanced(dt);
        a.clock.lemma_advanced(dt);
        if clock.spec_is_done() {
            let g = grounded(v);
            assert(g.id_values() =~= v.id_values().remove(v.count() - 1));
            lemma_remove_keeps(v.id_values(), v.count() - 1, v.issued as int);
            let w = v.landed();
            let hand = v.hand.len();
            match f.elem.what {
                VisElemWhat::FloatingCard {
                    dst: BattlefieldInsertPos(BattlefieldPos::Friend(at)),
                    ..
                } => {
                    assert(w.id_values() =~= g.id_values().insert(hand + at, v.issued as u64));
                    lemma_insert_fresh(g.id_values(), hand + at, v.issued as int);
                },
                _ => {
                    assert(w.id_values() =~= g.id_values());
                },
            }
            lemma_with_hover(w);
        } else {
            let w = v.with_clock(clock);
            assert(w.id_values() =~= v.id_values());
            lemma_with_hover(w);
        }
    }
}

/// A card that enters the hand keeps the game well formed.
pub proof fn lemma_dealt_wf(v: GameView, card: Card)
    requires
        v.wf(),
        v.has_room() ==> v.can_issue(1),
    ensures
        v.dealt(card).wf(),
        v.has_room() ==> v.with_card(card).wf_core() && v.with_card(card).id_values()
            == v.id_values().insert(v.hand.len() as int, v.issued as u64),
{
    if v.has_room() {
        let w = v.with_card(card);
        assert(w.id_values() =~= v.id_values().insert(v.hand.len() as int, v.issued as u64));
        lemma_insert_fresh(v.id_values(), v.hand.len() as int, v.issued as int);
        lemma_with_hover(w);
    }
}

/// The index, in the list of visual elements, of a creature that is put on
/// the battlefield.
pub open spec fn spawn_index(v: GameView, insert_pos: BattlefieldInsertPos) -> int {
    match insert_pos.0 {
        BattlefieldPos::Friend(i) => v.hand.len() + i,
        BattlefieldPos::Foe(i) => v.hand.len() + v.friends.len() + i,
    }
}

/// The handles of a game with one more creature are those it had, with the
/// handle of the creature inserted.
proof fn lemma_with_entity_ids(v: GameView, kind: EntityKind, insert_pos: BattlefieldInsertPos)
    requires
        v.wf_core(),
        v.can_spawn(insert_pos),
        v.issued < u64::MAX,
    ensures
        v.with_entity(kind, insert_pos).id_values() == v.id_values().insert(
            spawn_index(v, insert_pos),
            v.issued as u64,
        ),
        v.with_entity(kind, insert_pos).count() == v.count() + 1,
{
    let w = v.with_entity(kind, insert_pos);
    let fresh = spawn_index(v, insert_pos);
    let after = v.id_values().insert(fresh, v.issued as u64);
    assert(w.count() == v.count() + 1);
    assert forall|idx: int| 0 <= idx < w.count() implies w.id_values()[idx] == after[idx] by {
        if idx < fresh {
            assert(w.id_at(idx) == v.id_at(idx));
        } else if idx > fresh {
            assert(w.id_at(idx) == v.id_at(idx - 1));
        } else {
            assert(w.id_at(idx) == Id::of(v.issued as u64));
        }
    }
    assert(w.id_values() =~= after);
}

/// A creature that is put on the battlefield keeps the game well formed.
pub proof fn lemma_spawned_wf(v: GameView, kind: EntityKind, insert_pos: BattlefieldInsertPos)
    requires
        v.wf(),
        v.can_spawn(insert_pos) ==> v.can_issue(1),
    ensures
        v.spawned(kind, insert_pos).wf(),
        v.can_spawn(insert_pos) ==> v.with_entity(kind, insert_pos).wf_core() && v.with_entity(
            kind,
            insert_pos,
        ).id_values() == v.id_values().insert(spawn_index(v, insert_pos), v.issued as u64),
{
    if v.can_spawn(insert_pos) {
        let w = v.with_entity(kind, insert_pos);
        lemma_with_entity_ids(v, kind, insert_pos);
        lemma_insert_fresh(v.id_values(), spawn_index(v, insert_pos), v.issued as int);
        assert(w.wf_core());
        lemma_with_hover(w);
    }
}

/// While a card is in flight, pressing and releasing the button change nothing.
pub proof fn lemma_buttons_blocked_in_flight(v: GameView)
    requires
        v.animating(),
    ensures
        v.pressed() == v,
        v.released() == v,
{
}

/// A resize changes the extent of the canvas and what is hovered, and
/// nothing else: a card in flight keeps its progress.
pub proof fn lemma_resize_keeps_flight(v: GameView, width: u32, height: u32)
    ensures
        v.resized(width, height).flight == v.flight,
        v.resized(width, height).hand == v.hand,
        v.resized(width, height).friends == v.friends,
        v.resized(width, height).foes == v.foes,
        v.resized(width, height).selected == v.selected,
        v.resized(width, height).cursor == v.cursor,
        v.flight is Some ==> v.resized(width, height).progress() == v.progress(),
{
}

/// No visual element but that of the card in flight is animated: the game
/// never holds more than one animation.
pub proof fn lemma_single_animation(v: GameView, idx: int)
    requires
        v.wf(),
        0 <= idx < v.count(),
        v.elem_at(idx).animation is Some,
    ensures
        v.flight is Some,
        v.role_at(idx) == Role::Flight,
        idx == v.count() - 1,
{
}

/// The visual element in each role of a well-formed game can be resolved:
/// its position, and its destination while it is animated, are tame.
pub proof fn lemma_role_elems_tame(v: GameView, role: Role)
    requires
        v.wf_core(),
        v.has_role(role),
    ensures
        v.hand_transition().wf(),
        v.battlefield_transition().wf(),
        tame(v.elem_of(role).pos),
        v.elem_of(role).animation matches Some(a) ==> a.clock.wf() && tame(a.dst_pos),
{
    if let Some(f) = v.flight {
        f.elem.animation->0.clock.lemma_progress();
    }
    match role {
        Role::HandCard(i) => {
            lemma_row_positions_tame(0, 0, v.hand.len(), i as nat, v.hand_transition());
        },
        Role::Friend(i) => {
            lemma_row_positions_tame(
                v.friends.len(),
                v.foes.len(),
                0,
                i as nat,
                v.battlefield_transition(),
            );
        },
        Role::Foe(i) => {
            lemma_row_positions_tame(
                v.friends.len(),
                v.foes.len(),
                0,
                i as nat,
                v.battlefield_transition(),
            );
        },
        Role::InsertPos(i) => {
            lemma_row_positions_tame(v.friends.len(), v.foes.len(), 0, i as nat, Transition::Rest);
        },
        Role::Flight => {},
    }
}

/// Every visual element of a well-formed game stands in a role and can be
/// resolved.
pub proof fn lemma_elements_tame(v: GameView, idx: int)
    requires
        v.wf_core(),
        0 <= idx < v.count(),
    ensures
        v.has_role(v.role_at(idx)),
        v.hand_transition().wf(),
        v.battlefield_transition().wf(),
        tame(v.elem_at(idx).pos),
        v.elem_at(idx).animation matches Some(a) ==> a.clock.wf() && tame(a.dst_pos),
{
    lemma_role_elems_tame(v, v.role_at(idx));
}

/// Every visual element of a well-formed game is shown where it can be drawn.
pub proof fn lemma_element_drawable(v: GameView, idx: int)
    requires
        v.wf_core(),
        0 <= idx < v.count(),
    ensures
        drawable(v.element(idx).rect),
        v.element(idx).rect@ == shown_frame(v.elem_at(idx), v.canvas),
        v.elements()[idx] == v.element(idx),
{
    lemma_elements_tame(v, idx);
    let elem = v.elem_at(idx);
    let dims = elem.what.spec_dimensions();
    lemma_tame_place(elem.pos, dims, v.canvas);
    if let Some(a) = elem.animation {
        lemma_tame_place(a.dst_pos, dims, v.canvas);
        let from = place(canvas_frame(v.canvas), elem.pos, dims);
        let to = place(canvas_frame(v.canvas), a.dst_pos, dims);
        lemma_lerp_ends(from.x, to.x, a.clock.elapsed() as int, a.clock.duration() as int);
        lemma_lerp_ends(from.y, to.y, a.clock.elapsed() as int, a.clock.duration() as int);
    }
}

/// When a card has just been released over a target, nothing has moved:
/// each card that is left in the hand, and each creature, lies where it lay
/// before, and the flight starts where the card lay.
pub proof fn lemma_flight_starts_in_place(v: GameView, a: Action)
    requires
        v.wf(),
        v.flight is None,
        v.action() == Some(a),
    ensures
        ({
            let w = v.released();
            let from = v.selected->0;
            &&& w.hand.len() + 1 == v.hand.len()
            &&& w.friends == v.friends
            &&& w.foes == v.foes
            &&& forall|i: nat|
                i < w.hand.len() ==> (#[trigger] w.elem_of(Role::HandCard(i as usize))).pos
                    == v.elem_of(
                    Role::HandCard(
                        if i >= from {
                            (i + 1) as usize
                        } else {
                            i as usize
                        },
                    ),
                ).pos
            &&& forall|i: nat|
                i < w.friends.len() ==> (#[trigger] w.elem_of(Role::Friend(i as usize))).pos
                    == v.elem_of(Role::Friend(i as usize)).pos
            &&& forall|i: nat|
                i < w.foes.len() ==> (#[trigger] w.elem_of(Role::Foe(i as usize))).pos
                    == v.elem_of(Role::Foe(i as usize)).pos
            &&& a is Play ==> w.flight->0.elem.pos.coords == v.elem_of(Role::HandCard(from)).pos.coords
        }),
{
    lemma_released_wf(v);
    lemma_launched_wf(v, a);
    lemma_action_in_range(v);
    let w = v.released();
    let from = v.selected->0;
    let progress = w.progress();
    w.flight->0.elem.animation->0.clock.lemma_progress();
    AnimationClock::lemma_start(TRANSFER_DURATION);
    assert(progress.num == 0);
    assert forall|i: nat| i < w.hand.len() implies (#[trigger] w.elem_of(
        Role::HandCard(i as usize),
    )).pos == v.elem_of(
        Role::HandCard(
            if i >= from {
                (i + 1) as usize
            } else {
                i as usize
            },
        ),
    ).pos by {
        lemma_hand_reflow_continuous(w.hand.len(), i, from, progress);
    }
    assert forall|i: nat| i < w.friends.len() implies (#[trigger] w.elem_of(
        Role::Friend(i as usize),
    )).pos == v.elem_of(Role::Friend(i as usize)).pos by {
        if let Action::Play { at, .. } = a {
            lemma_battlefield_reflow_continuous(v.friends.len(), v.foes.len(), i, at, progress);
        }
    }
    assert forall|i: nat| i < w.foes.len() implies (#[trigger] w.elem_of(Role::Foe(i as usize))).pos
        == v.elem_of(Role::Foe(i as usize)).pos by {
        if let Action::Play { at, .. } = a {
            lemma_battlefield_reflow_continuous(v.friends.len(), v.foes.len(), i, at, progress);
        }
    }
}

/// When a creature card arrives, nothing jumps: each card of the hand and
/// each creature lies where the reflow had brought it at the end of the
/// flight, the friends at or after the insertion one index further.
pub proof fn lemma_flight_ends_in_place(v: GameView, clock: AnimationClock)
    requires
        v.wf(),
        v.flight matches Some(f) && f.elem.what is FloatingCard,
        clock.wf(),
        clock.spec_is_done(),
    ensures
        ({
            let before = v.with_clock(clock);
            let after = v.landed();
            let at = v.flight->0.elem.what->dst.0->Friend_0;
            &&& after.hand == v.hand
            &&& after.friends.len() == v.friends.len() + 1
            &&& after.foes == v.foes
            &&& forall|i: nat|
                i < v.hand.len() ==> (#[trigger] after.elem_of(Role::HandCard(i as usize))).pos
                    == before.elem_of(Role::HandCard(i as usize)).pos
            &&& forall|i: nat|
                i < v.friends.len() ==> (#[trigger] before.elem_of(Role::Friend(i as usize))).pos
                    == after.elem_of(
                    Role::Friend(
                        if i >= at {
                            (i + 1) as usize
                        } else {
                            i as usize
                        },
                    ),
                ).pos
            &&& forall|i: nat|
                i < v.foes.len() ==> (#[trigger] after.elem_of(Role::Foe(i as usize))).pos
                    == before.elem_of(Role::Foe(i as usize)).pos
        }),
{
    let before = v.with_clock(clock);
    let after = v.landed();
    let f = v.flight->0;
    let at = f.elem.what->dst.0->Friend_0;
    let from = f.elem.what->FloatingCard_from_hand;
    clock.lemma_progress();
    let progress = clock.spec_progress();
    assert(before.progress() == progress);
    assert(progress.num == progress.den);
    assert forall|i: nat| i < v.hand.len() implies (#[trigger] after.elem_of(
        Role::HandCard(i as usize),
    )).pos == before.elem_of(Role::HandCard(i as usize)).pos by {
        lemma_hand_reflow_continuous(v.hand.len(), i, from, progress);
    }
    assert forall|i: nat| i < v.friends.len() implies (#[trigger] before.elem_of(
        Role::Friend(i as usize),
    )).pos == after.elem_of(
        Role::Friend(
            if i >= at {
                (i + 1) as usize
            } else {
                i as usize
            },
        ),
    ).pos by {
        lemma_battlefield_reflow_continuous(v.friends.len(), v.foes.len(), i, at, progress);
    }
    assert forall|i: nat| i < v.foes.len() implies (#[trigger] after.elem_of(
        Role::Foe(i as usize),
    )).pos == before.elem_of(Role::Foe(i as usize)).pos by {
        lemma_battlefield_reflow_continuous(v.friends.len(), v.foes.len(), i, at, progress);
    }
}

/// The visual elements of a well-formed game, as they are shown, show
/// distinct visual elements.
pub proof fn lemma_elements_distinct(v: GameView)
    requires
        v.wf_core(),
    ensures
        distinct_handles(v.elements()),
{
    assert forall|i: int, j: int| 0 <= i < j < v.elements().len() implies v.elements()[i].what
        != v.elements()[j].what by {
        assert(v.id_values()[i] != v.id_values()[j]);
    }
}

} // verus!
