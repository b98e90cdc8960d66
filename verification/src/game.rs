//! The game: its cards and creatures, the visual elements that show them,
//! and the handlers of the events that the host feeds it.

use vstd::prelude::*;
use vstd::seq_lib::to_multiset_contains;
use crate::draw::{
    element_commands, spec_element_commands, DrawCommand, Face, Tint, LINE_THICKNESS,
};
use crate::geometry::{Rect, ScreenCoords, ScreenDimensions, Vec2};
use crate::id_generator::{Id, IdGenerator};
use crate::interface::{
    back_to_front, back_to_front_order, lemma_back_to_front_unique,
    lemma_distinct_handles_by_elements, lemma_pick_in_range, pick, InterfaceElement,
};
use crate::invariants::{
    arming, cleared, grounded, launched_state, lemma_action_in_range, lemma_armed_ids, lemma_arming_step,
    lemma_dealt_wf, lemma_element_drawable, lemma_elements_distinct, lemma_elements_tame,
    lemma_empty_wf,
    lemma_lists_insert, lemma_lists_remove, lemma_pressed_wf, lemma_released_wf,
    lemma_role_elems_tame, lemma_selectable_is_hand_card, lemma_shed_step, lemma_single_animation, lemma_spawned_wf,
    lemma_ticked_wf, lemma_wf_core_reframed, lists, shed, spawn_index,
};
use crate::layout::{
    foe_pos, friend_pos, hand_pos, insert_pos_pos, lemma_row_positions_tame, lemma_tame_resolves,
    snug, tame, tame_extent, FLOATING_DEPTH, TRANSFER_DURATION,
};
use crate::model::{
    Animation, BattlefieldInsertPos, BattlefieldPos, Card, CardInHand, Entity, EntityKind,
    EntityOnBattlefield, Flight, VisElem, VisElemPos, VisElemWhat, CARD_WIDTH,
};
use crate::pin_point::PinPoint;
use crate::reflow::{Transition, ROW_CAPACITY};
use crate::rules::{rect_of, shown_frame, spec_centered, Action, GameView, Role};
use crate::store::Store;

verus! {

broadcast use {Id::lemma_of_value, Id::lemma_value_of};

/// A key of the keyboard, as far as the game tells keys apart.
#[derive(Clone, Copy, PartialEq, Eq, Debug, Structural)]
pub enum KeyCode {
    Space,
    Escape,
    Other,
}

/// A button of the pointer. Only the left one selects and releases.
#[derive(Clone, Copy, PartialEq, Eq, Debug)]
pub enum MouseButton {
    Left,
    Right,
    Middle,
    Other(u16),
}

/// The two teams, each in its order from left to right, and the visual
/// elements of the places where a friend can be inserted.
pub struct Battlefield {
    friends: Vec<EntityOnBattlefield>,
    foes: Vec<EntityOnBattlefield>,
    friend_insert_pos_vis_elem_ids: Vec<Id>,
}

/// The game: the cards and creatures, the visual elements that show them,
/// the cursor, and what is hovered and selected.
pub struct Game {
    id_generator: IdGenerator,
    context_size: ScreenDimensions,
    vis_elems: Store,
    hand: Vec<CardInHand>,
    battlefield: Battlefield,
    flight: Option<Flight>,
    cursor_pos: Option<ScreenCoords>,
    /// Index of the hovered visual element in the list of all of them.
    hovered: Option<usize>,
    /// Index of the selected card in the hand.
    selected: Option<usize>,
}

impl View for Game {
    type V = GameView;

    closed spec fn view(&self) -> GameView {
        GameView {
            issued: self.id_generator.issued(),
            canvas: self.context_size,
            hand: self.hand@,
            friends: self.battlefield.friends@,
            foes: self.battlefield.foes@,
            insert_pos_ids: self.battlefield.friend_insert_pos_vis_elem_ids@,
            flight: self.flight,
            cursor: self.cursor_pos,
            hovered: self.hovered,
            selected: self.selected,
        }
    }
}

/// Whether the store holds a visual element under the handle of each of the
/// game's visual elements, and no other, and knows of no handle that was
/// not issued.
pub open spec fn holds_ids(store: Store, v: GameView) -> bool {
    &&& store.wf()
    &&& lists(v.id_values(), store@.dom())
    &&& forall|k: u64| #[trigger] store.known(k) ==> k < v.issued
}

/// Whether the store holds the visual elements of the game, each under its
/// handle and as the state of the game makes it, and no other.
pub open spec fn holds(store: Store, v: GameView) -> bool {
    &&& holds_ids(store, v)
    &&& forall|idx: int|
        0 <= idx < v.count() ==> store@[(#[trigger] v.id_at(idx)).value()] == v.elem_at(idx)
}

/// A store that holds the visual elements of a state holds those of every
/// state that differs from it in the canvas, the cursor and what is hovered
/// alone.
pub proof fn lemma_holds_reframed(store: Store, v: GameView, w: GameView)
    requires
        holds(store, v),
        v.wf_core(),
        tame_extent(w.canvas),
        w == (GameView { canvas: w.canvas, cursor: w.cursor, hovered: w.hovered, ..v }),
    ensures
        holds(store, w),
        w.wf_core(),
{
    lemma_wf_core_reframed(v, w.canvas, w.cursor, w.hovered);
    assert forall|idx: int| 0 <= idx < w.count() implies store@[(#[trigger] w.id_at(idx)).value()]
        == w.elem_at(idx) by {
        assert(w.elem_at(idx) == v.elem_at(idx));
        assert(w.id_at(idx) == v.id_at(idx));
        lemma_held(store, v, idx);
    }
}

/// What the store holds under a handle of the game.
pub proof fn lemma_held(store: Store, v: GameView, idx: int)
    requires
        holds(store, v),
        0 <= idx < v.count(),
    ensures
        store@.contains_key(v.id_at(idx).value()),
        store@[v.id_at(idx).value()] == v.elem_at(idx),
{
    assert(v.id_values()[idx] == v.id_at(idx).value());
}

impl Game {
    /// The store of the visual elements.
    pub closed spec fn store(&self) -> Store {
        self.vis_elems
    }

    /// All that holds of a game but for what is hovered.
    pub open spec fn wf_core(&self) -> bool {
        self@.wf_core() && holds(self.store(), self@)
    }

    /// The state of the game is well formed, and the store holds its visual
    /// elements and no other.
    pub open spec fn wf(&self) -> bool {
        self@.wf() && holds(self.store(), self@)
    }

    /// Number of visual elements.
    fn count(&self) -> (n: usize)
        requires
            self@.wf_core(),
        ensures
            n == self@.count(),
    {
        let flying: usize = if self.flight.is_some() {
            1
        } else {
            0
        };
        self.hand.len() + self.battlefield.friends.len() + self.battlefield.foes.len() + flying
            + self.battlefield.friend_insert_pos_vis_elem_ids.len()
    }

    /// What stands at an index of the list of visual elements.
    fn role_at(&self, idx: usize) -> (role: Role)
        requires
            self@.wf_core(),
            idx < self@.count(),
        ensures
            role == self@.role_at(idx as int),
            self@.has_role(role),
    {
        let h = self.hand.len();
        let f = self.battlefield.friends.len();
        let e = self.battlefield.foes.len();
        let s = self.battlefield.friend_insert_pos_vis_elem_ids.len();
        if idx < h {
            Role::HandCard(idx)
        } else if idx < h + f {
            Role::Friend(idx - h)
        } else if idx < h + f + e {
            Role::Foe(idx - h - f)
        } else if idx < h + f + e + s {
            Role::InsertPos(idx - h - f - e)
        } else {
            Role::Flight
        }
    }

    /// The handle of the visual element in a role.
    fn id_of(&self, role: Role) -> (id: Id)
        requires
            self@.has_role(role),
        ensures
            id == self@.id_of(role),
    {
        match role {
            Role::HandCard(i) => self.hand[i].vis_elem_id,
            Role::Friend(i) => self.battlefield.friends[i].vis_elem_id,
            Role::Foe(i) => self.battlefield.foes[i].vis_elem_id,
            Role::InsertPos(i) => self.battlefield.friend_insert_pos_vis_elem_ids[i],
            Role::Flight => self.flight.unwrap().vis_elem_id,
        }
    }

    /// What is happening to the row of the hand.
    fn hand_transition(&self) -> (t: Transition)
        requires
            self@.wf_core(),
        ensures
            t == self@.hand_transition(),
            t.wf(),
    {
        proof {
            if let Some(f) = self@.flight {
                f.elem.animation->0.clock.lemma_progress();
            }
        }
        match self.flight {
            Some(f) => match (f.elem.what, f.elem.animation) {
                (VisElemWhat::FloatingCard { from_hand, .. }, Some(a)) => Transition::Remove {
                    at: from_hand,
                    progress: a.clock.progress(),
                },
                (VisElemWhat::FloatingEffect { from_hand, .. }, Some(a)) => Transition::Remove {
                    at: from_hand,
                    progress: a.clock.progress(),
                },
                _ => Transition::Rest,
            },
            None => Transition::Rest,
        }
    }

    /// What is happening to the row of the battlefield.
    fn battlefield_transition(&self) -> (t: Transition)
        requires
            self@.wf_core(),
        ensures
            t == self@.battlefield_transition(),
            t.wf(),
    {
        proof {
            if let Some(f) = self@.flight {
                f.elem.animation->0.clock.lemma_progress();
            }
        }
        match self.flight {
            Some(f) => match (f.elem.what, f.elem.animation) {
                (
                    VisElemWhat::FloatingCard {
                        dst: BattlefieldInsertPos(BattlefieldPos::Friend(at)),
                        ..
                    },
                    Some(a),
                ) => Transition::Insert { at, progress: a.clock.progress() },
                _ => Transition::Rest,
            },
            None => Transition::Rest,
        }
    }

    /// Whether the selected card is food.
    fn food_armed(&self) -> (b: bool)
        requires
            self@.wf_core(),
        ensures
            b == self@.food_armed(),
    {
        match self.selected {
            Some(k) => match self.hand[k].card {
                crate::model::Card::Food => true,
                _ => false,
            },
            None => false,
        }
    }

    /// The visual element in a role, as the state of the game makes it.
    fn elem_of(&self, role: Role) -> (elem: VisElem)
        requires
            self@.wf_core(),
            self@.has_role(role),
        ensures
            elem == self@.elem_of(role),
    {
        let h = self.hand.len();
        let f = self.battlefield.friends.len();
        let e = self.battlefield.foes.len();
        match role {
            Role::HandCard(i) => VisElem {
                pos: hand_pos(h, i, self.hand_transition()),
                animation: None,
                what: VisElemWhat::Card { card: self.hand[i].card, where_in_hand: i },
                selectable: true,
                targetable: false,
            },
            Role::Friend(i) => VisElem {
                pos: friend_pos(f, e, i, self.battlefield_transition()),
                animation: None,
                what: VisElemWhat::Entity { where_on_battlefield: BattlefieldPos::Friend(i) },
                selectable: false,
                targetable: self.food_armed(),
            },
            Role::Foe(i) => VisElem {
                pos: foe_pos(f, e, i, self.battlefield_transition()),
                animation: None,
                what: VisElemWhat::Entity { where_on_battlefield: BattlefieldPos::Foe(i) },
                selectable: false,
                targetable: self.food_armed(),
            },
            Role::InsertPos(i) => VisElem {
                pos: insert_pos_pos(f, e, i),
                animation: None,
                what: VisElemWhat::BattlefieldInsertPos(
                    BattlefieldInsertPos(BattlefieldPos::Friend(i)),
                ),
                selectable: false,
                targetable: true,
            },
            Role::Flight => self.flight.unwrap().elem,
        }
    }

    /// Brings the visual elements at the indices from `from` up to `to` of
    /// the list up to the state of the game: where each stands, what it
    /// shows, and whether it can be selected or is a target. The others stay
    /// as they are.
    fn update_vis_elems_between(&mut self, from: usize, to: usize)
        requires
            old(self)@.wf_core(),
            holds_ids(old(self).store(), old(self)@),
            from <= to <= old(self)@.count(),
        ensures
            final(self)@ == old(self)@,
            holds_ids(final(self).store(), final(self)@),
            forall|j: int|
                from <= j < to ==> final(self).store()@[(#[trigger] final(self)@.id_at(j)).value()]
                    == final(self)@.elem_at(j),
            forall|j: int|
                0 <= j < final(self)@.count() && !(from <= j < to) ==> final(self).store()@[(
                #[trigger] final(self)@.id_at(j)).value()] == old(self).store()@[old(self)@.id_at(
                    j,
                ).value()],
    {
        let mut idx: usize = from;
        while idx < to
            invariant
                self@ == old(self)@,
                self@.wf_core(),
                from <= idx <= to <= self@.count(),
                holds_ids(self.store(), self@),
                forall|j: int|
                    from <= j < idx ==> self.store()@[(#[trigger] self@.id_at(j)).value()]
                        == self@.elem_at(j),
                forall|j: int|
                    0 <= j < self@.count() && !(from <= j < idx) ==> self.store()@[(
                    #[trigger] self@.id_at(j)).value()] == old(self).store()@[old(self)@.id_at(
                        j,
                    ).value()],
            decreases to - idx,
        {
            let role = self.role_at(idx);
            let id = self.id_of(role);
            let elem = self.elem_of(role);
            proof {
                lemma_elements_tame(self@, idx as int);
            }
            let ghost before = self.vis_elems;
            let replaced = self.vis_elems.replace(id, elem);
            proof {
                assert(self@.id_values()[idx as int] == id.value());
                assert(before@.contains_key(id.value()));
                assert(replaced);
                assert(self.store()@.dom() =~= before@.dom());
                assert forall|k: u64| #[trigger] self.store().known(k) implies k
                    < self@.issued by {
                    assert(before.known(k));
                }
                assert forall|j: int| 0 <= j < self@.count() && j != idx implies (
                #[trigger] self@.id_at(j)).value() != id.value() by {
                    assert(self@.id_values()[j] == self@.id_at(j).value());
                    assert(self@.id_values()[j] != self@.id_values()[idx as int]);
                }
            }
            idx += 1;
        }
    }

    /// Puts each card of the hand where it stands in the row of the hand,
    /// and tells it its index there: whatever the store held under the
    /// handle of a card, it then holds the card as the state of the game
    /// makes it. The other visual elements stay as they are.
    pub fn update_pos_of_cards_in_hand(&mut self)
        requires
            old(self)@.wf_core(),
            holds_ids(old(self).store(), old(self)@),
        ensures
            final(self)@ == old(self)@,
            holds_ids(final(self).store(), final(self)@),
            forall|i: int|
                0 <= i < final(self)@.hand.len() ==> final(self).store()@[(
                #[trigger] final(self)@.hand[i]).vis_elem_id.value()] == final(self)@.elem_of(
                    Role::HandCard(i as usize),
                ),
            forall|j: int|
                0 <= j < final(self)@.hand.len() ==> final(self).store()@[(
                #[trigger] final(self)@.id_at(j)).value()] == final(self)@.elem_at(j),
            forall|j: int|
                final(self)@.hand.len() <= j < final(self)@.count() ==> final(self).store()@[(
                #[trigger] final(self)@.id_at(j)).value()] == old(self).store()@[old(self)@.id_at(
                    j,
                ).value()],
            old(self).wf() ==> final(self).wf(),
    {
        self.update_vis_elems_between(0, self.hand.len());
        proof {
            let v = self@;
            assert forall|i: int| 0 <= i < v.hand.len() implies self.store()@[(
            #[trigger] v.hand[i]).vis_elem_id.value()] == v.elem_of(Role::HandCard(i as usize)) by {
                assert(v.id_at(i) == v.hand[i].vis_elem_id);
                assert(v.elem_at(i) == v.elem_of(Role::HandCard(i as usize)));
            }
            if old(self).wf() {
                assert forall|idx: int| 0 <= idx < v.count() implies self.store()@[(
                #[trigger] v.id_at(idx)).value()] == v.elem_at(idx) by {
                    lemma_held(old(self).store(), v, idx);
                }
            }
        }
    }

    /// Puts each creature where it stands in the row of the battlefield, and
    /// each insertion position in the gap it stands for; makes the creatures
    /// the targets of a food card that is selected. Whatever the store held
    /// under the handle of a creature or of an insertion position, it then
    /// holds what the state of the game makes of it. The other visual
    /// elements stay as they are.
    pub fn update_pos_of_entities_in_battlefield(&mut self)
        requires
            old(self)@.wf_core(),
            holds_ids(old(self).store(), old(self)@),
        ensures
            final(self)@ == old(self)@,
            holds_ids(final(self).store(), final(self)@),
            forall|i: int|
                0 <= i < final(self)@.friends.len() ==> final(self).store()@[(
                #[trigger] final(self)@.friends[i]).vis_elem_id.value()] == final(self)@.elem_of(
                    Role::Friend(i as usize),
                ),
            forall|i: int|
                0 <= i < final(self)@.foes.len() ==> final(self).store()@[(
                #[trigger] final(self)@.foes[i]).vis_elem_id.value()] == final(self)@.elem_of(
                    Role::Foe(i as usize),
                ),
            forall|i: int|
                0 <= i < final(self)@.insert_pos_ids.len() ==> final(self).store()@[(
                #[trigger] final(self)@.insert_pos_ids[i]).value()] == final(self)@.elem_of(
                    Role::InsertPos(i as usize),
                ),
            forall|j: int|
                final(self)@.hand.len() <= j < final(self)@.rows_end() ==> final(self).store()@[(
                #[trigger] final(self)@.id_at(j)).value()] == final(self)@.elem_at(j),
            forall|j: int|
                0 <= j < final(self)@.hand.len() || final(self)@.rows_end() <= j < final(self)@.count()
                    ==> final(self).store()@[(#[trigger] final(self)@.id_at(j)).value()] == old(
                    self,
                ).store()@[old(self)@.id_at(j).value()],
            old(self).wf() ==> final(self).wf(),
    {
        let from = self.hand.len();
        let to = from + self.battlefield.friends.len() + self.battlefield.foes.len()
            + self.battlefield.friend_insert_pos_vis_elem_ids.len();
        self.update_vis_elems_between(from, to);
        proof {
            let v = self@;
            let h = v.hand.len() as int;
            let f = v.friends.len() as int;
            let e = v.foes.len() as int;
            assert forall|i: int| 0 <= i < v.friends.len() implies self.store()@[(
            #[trigger] v.friends[i]).vis_elem_id.value()] == v.elem_of(Role::Friend(i as usize)) by {
                assert(v.id_at(h + i) == v.friends[i].vis_elem_id);
                assert(v.elem_at(h + i) == v.elem_of(Role::Friend(i as usize)));
            }
            assert forall|i: int| 0 <= i < v.foes.len() implies self.store()@[(
            #[trigger] v.foes[i]).vis_elem_id.value()] == v.elem_of(Role::Foe(i as usize)) by {
                assert(v.id_at(h + f + i) == v.foes[i].vis_elem_id);
                assert(v.elem_at(h + f + i) == v.elem_of(Role::Foe(i as usize)));
            }
            assert forall|i: int| 0 <= i < v.insert_pos_ids.len() implies self.store()@[(
            #[trigger] v.insert_pos_ids[i]).value()] == v.elem_of(Role::InsertPos(i as usize)) by {
                assert(v.id_at(h + f + e + i) == v.insert_pos_ids[i]);
                assert(v.elem_at(h + f + e + i) == v.elem_of(Role::InsertPos(i as usize)));
            }
            if old(self).wf() {
                assert forall|idx: int| 0 <= idx < v.count() implies self.store()@[(
                #[trigger] v.id_at(idx)).value()] == v.elem_at(idx) by {
                    lemma_held(old(self).store(), v, idx);
                }
            }
        }
    }

    /// Brings every visual element in the store up to the state of the game:
    /// the cards of the hand, the creatures and the insertion positions of
    /// the battlefield, and the card in flight.
    fn update_vis_elems(&mut self)
        requires
            old(self)@.wf_core(),
            holds_ids(old(self).store(), old(self)@),
        ensures
            final(self)@ == old(self)@,
            holds(final(self).store(), final(self)@),
    {
        self.update_pos_of_cards_in_hand();
        self.update_pos_of_entities_in_battlefield();
        let n = self.count();
        let from = if self.flight.is_some() {
            n - 1
        } else {
            n
        };
        self.update_vis_elems_between(from, n);
    }

    /// The visual elements as they are shown: each with the rectangle it is
    /// resolved to on the canvas, and its flags.
    pub fn interface_elements(&self) -> (elems: Vec<InterfaceElement>)
        requires
            self.wf_core(),
        ensures
            elems@ == self@.elements(),
    {
        let n = self.count();
        let mut elems: Vec<InterfaceElement> = Vec::new();
        let mut idx: usize = 0;
        while idx < n
            invariant
                self.wf_core(),
                n == self@.count(),
                idx <= n,
                elems@.len() == idx,
                forall|j: int| 0 <= j < idx ==> elems@[j] == self@.element(j),
            decreases n - idx,
        {
            let id = self.id_of(self.role_at(idx));
            proof {
                lemma_elements_tame(self@, idx as int);
                lemma_held(self.store(), self@, idx as int);
            }
            let elem = self.vis_elems.get(id).unwrap();
            let rect = self.shown_rect(&elem);
            elems.push(
                InterfaceElement {
                    rect,
                    depth: elem.pos.depth,
                    hovered: self.is_at(self.hovered, idx),
                    selected: self.is_at(self.selected, idx),
                    targetable: elem.targetable,
                    what: id,
                },
            );
            idx += 1;
        }
        assert(elems@ =~= self@.elements());
        elems
    }

    /// Whether `at` is the index `idx`.
    fn is_at(&self, at: Option<usize>, idx: usize) -> (b: bool)
        ensures
            b == (at == Some(idx)),
    {
        match at {
            Some(i) => i == idx,
            None => false,
        }
    }

    /// The rectangle at which a visual element without a parent is shown now.
    fn shown_rect(&self, elem: &VisElem) -> (rect: Rect)
        requires
            self.store().wf(),
            tame_extent(self@.canvas),
            tame(elem.pos),
            elem.animation matches Some(a) ==> a.clock.wf() && tame(a.dst_pos),
        ensures
            rect == rect_of(shown_frame(*elem, self@.canvas)),
            rect@ == shown_frame(*elem, self@.canvas),
    {
        let dims = elem.what.dimensions();
        proof {
            lemma_tame_resolves(self.vis_elems, elem.pos, dims, self.context_size);
            if let Some(a) = elem.animation {
                lemma_tame_resolves(self.vis_elems, a.dst_pos, dims, self.context_size);
                let from = crate::store::place(
                    crate::store::canvas_frame(self.context_size),
                    elem.pos,
                    dims,
                );
                let to = crate::store::place(
                    crate::store::canvas_frame(self.context_size),
                    a.dst_pos,
                    dims,
                );
                crate::clock::lemma_lerp_ends(
                    from.x,
                    to.x,
                    a.clock.elapsed() as int,
                    a.clock.duration() as int,
                );
                crate::clock::lemma_lerp_ends(
                    from.y,
                    to.y,
                    a.clock.elapsed() as int,
                    a.clock.duration() as int,
                );
            }
        }
        self.vis_elems.current_rect(elem, self.context_size)
    }

    /// Makes the visual element that the cursor points at the hovered one.
    fn refresh_hover(&mut self)
        requires
            old(self).wf_core(),
        ensures
            final(self)@ == old(self)@.with_hover(),
            final(self).wf(),
    {
        let elems = self.interface_elements();
        self.hovered = match self.cursor_pos {
            Some(c) => pick(&elems, c),
            None => None,
        };
        proof {
            crate::rules::lemma_with_hover(old(self)@);
            let v = old(self)@;
            assert(self@ =~= v.with_hover());
            lemma_holds_reframed(self.store(), v, self@);
        }
    }

    /// Brings the visual elements and what is hovered up to the state of the game.
    fn settle(&mut self)
        requires
            old(self)@.wf_core(),
            holds_ids(old(self).store(), old(self)@),
        ensures
            final(self)@ == old(self)@.with_hover(),
            final(self).wf(),
    {
        self.update_vis_elems();
        self.refresh_hover();
    }

    /// A game on a canvas of the given extent with nothing in it.
    pub fn empty(width: u32, height: u32) -> (g: Game)
        ensures
            g.wf(),
            g@ == GameView::empty(width, height),
    {
        let g = Game {
            id_generator: IdGenerator::new(),
            context_size: Vec2 { x: width as i64, y: height as i64 },
            vis_elems: Store::new(),
            hand: Vec::new(),
            battlefield: Battlefield {
                friends: Vec::new(),
                foes: Vec::new(),
                friend_insert_pos_vis_elem_ids: Vec::new(),
            },
            flight: None,
            cursor_pos: None,
            hovered: None,
            selected: None,
        };
        proof {
            lemma_empty_wf(width, height);
            assert(g@ =~= GameView::empty(width, height));
            assert(g@.id_values() =~= Seq::<u64>::empty());
        }
        g
    }

    /// Whether one more card or creature can enter the game: it is at rest
    /// and its rows are not full.
    pub fn has_room(&self) -> (b: bool)
        requires
            self.wf(),
        ensures
            b == self@.has_room(),
    {
        self.flight.is_none() && self.selected.is_none() && self.hand.len()
            + self.battlefield.friends.len() + self.battlefield.foes.len() < ROW_CAPACITY
    }

    /// Puts a card in the hand, as its last card. A game that has no room
    /// stays as it is.
    pub fn add_card_to_hand(&mut self, card: Card) -> (added: bool)
        requires
            old(self).wf(),
            old(self)@.has_room() ==> old(self)@.can_issue(1),
        ensures
            final(self).wf(),
            added == old(self)@.has_room(),
            final(self)@ == old(self)@.dealt(card),
    {
        if !self.has_room() {
            return false;
        }
        let ghost v = self@;
        let index = self.hand.len();
        let id = self.id_generator.generate_id();
        self.hand.push(CardInHand { card, vis_elem_id: id });
        proof {
            lemma_dealt_wf(v, card);
            assert(self@ =~= v.with_card(card));
        }
        self.register(Role::HandCard(index), Ghost(v), Ghost(index as int));
        self.settle();
        true
    }

    /// Puts a creature of the given kind on the battlefield at `insert_pos`,
    /// with the stats it starts with. Where it cannot be put there, the game
    /// stays as it is.
    pub fn spawn_entity_on_battlefield(&mut self, kind: EntityKind, insert_pos: BattlefieldInsertPos) -> (spawned:
        bool)
        requires
            old(self).wf(),
            old(self)@.can_spawn(insert_pos) ==> old(self)@.can_issue(1),
        ensures
            final(self).wf(),
            spawned == old(self)@.can_spawn(insert_pos),
            final(self)@ == old(self)@.spawned(kind, insert_pos),
    {
        if !self.has_room() {
            return false;
        }
        let ghost v = self@;
        match insert_pos {
            BattlefieldInsertPos(BattlefieldPos::Friend(friend_i)) => {
                if friend_i > self.battlefield.friends.len() {
                    return false;
                }
                let vis_elem_id = self.id_generator.generate_id();
                self.battlefield.friends.insert(
                    friend_i,
                    EntityOnBattlefield { entity: Entity::new(kind), vis_elem_id },
                );
                proof {
                    lemma_spawned_wf(v, kind, insert_pos);
                    assert(self@ =~= v.with_entity(kind, insert_pos));
                }
                self.register(Role::Friend(friend_i), Ghost(v), Ghost(spawn_index(v, insert_pos)));
            },
            BattlefieldInsertPos(BattlefieldPos::Foe(foe_i)) => {
                if foe_i > self.battlefield.foes.len() {
                    return false;
                }
                let vis_elem_id = self.id_generator.generate_id();
                self.battlefield.foes.insert(
                    foe_i,
                    EntityOnBattlefield { entity: Entity::new(kind), vis_elem_id },
                );
                proof {
                    lemma_spawned_wf(v, kind, insert_pos);
                    assert(self@ =~= v.with_entity(kind, insert_pos));
                }
                self.register(Role::Foe(foe_i), Ghost(v), Ghost(spawn_index(v, insert_pos)));
            },
        }
        self.settle();
        true
    }

    /// Puts the visual element of a role that the game has just taken on
    /// into the store, under the handle that was issued for it last.
    fn register(&mut self, role: Role, Ghost(v): Ghost<GameView>, Ghost(at): Ghost<int>)
        requires
            old(self)@.wf_core(),
            old(self)@.has_role(role),
            holds_ids(old(self).store(), v),
            old(self)@.issued == v.issued + 1,
            old(self)@.id_of(role) == Id::of(v.issued as u64),
            0 <= at <= v.count(),
            old(self)@.id_values() == v.id_values().insert(at, v.issued as u64),
        ensures
            final(self)@ == old(self)@,
            holds_ids(final(self).store(), final(self)@),
    {
        let id = self.id_of(role);
        let elem = self.elem_of(role);
        let ghost before = self.vis_elems;
        let inserted = self.vis_elems.insert(id, elem);
        proof {
            assert(elem.pos.parent is None) by {
                lemma_role_elems_tame(self@, role);
            }
            assert(!before.known(id.value()));
            assert(inserted);
            lemma_lists_insert(v.id_values(), before@.dom(), at, v.issued as u64);
            assert(self.store()@.dom() =~= before@.dom().insert(v.issued as u64));
            assert forall|k: u64| #[trigger] self.store().known(k) implies k < self@.issued by {}
        }
    }

    /// The cursor has moved to `(x, y)`: the visual element it points at
    /// becomes the hovered one.
    pub fn mouse_motion_event(&mut self, x: i64, y: i64)
        requires
            old(self).wf(),
        ensures
            final(self).wf(),
            final(self)@ == old(self)@.moved(x, y),
    {
        self.cursor_pos = Some(Vec2 { x, y });
        proof {
            lemma_holds_reframed(self.store(), old(self)@, self@);
        }
        self.refresh_hover();
    }

    /// The canvas has taken the extent `(width, height)`: every visual
    /// element is resolved anew. A card in flight keeps its progress.
    pub fn resize_event(&mut self, width: u32, height: u32)
        requires
            old(self).wf(),
        ensures
            final(self).wf(),
            final(self)@ == old(self)@.resized(width, height),
    {
        self.context_size = Vec2 { x: width as i64, y: height as i64 };
        proof {
            lemma_holds_reframed(self.store(), old(self)@, self@);
        }
        self.refresh_hover();
    }

    /// A button has been pressed. The left button over a card of the hand
    /// selects the card, unless a card is in flight or one is selected
    /// already; the targets of the card come up with it: an insertion
    /// position in each gap of the friends for a creature card, the
    /// creatures for a food card. Every other press changes nothing.
    ///
    /// A press that makes insertion positions needs a handle for each.
    pub fn mouse_button_down_event(&mut self, button: MouseButton)
        requires
            old(self).wf(),
            button is Left ==> old(self)@.can_issue(old(self)@.press_needs()),
        ensures
            final(self).wf(),
            final(self)@ == if button is Left {
                old(self)@.pressed()
            } else {
                old(self)@
            },
    {
        match button {
            MouseButton::Left => {},
            _ => {
                return;
            },
        }
        if self.flight.is_some() || self.selected.is_some() {
            return;
        }
        let hovered = match self.hovered {
            Some(hovered) => hovered,
            None => {
                return;
            },
        };
        let ghost v = self@;
        proof {
            lemma_pick_in_range(v.elements(), v.cursor->0, v.count());
            lemma_held(self.store(), v, hovered as int);
            lemma_pressed_wf(v);
        }
        let hovered_vis_elem = self.vis_elems.get(self.id_of(self.role_at(hovered))).unwrap();
        if !hovered_vis_elem.selectable {
            return;
        }
        self.selected = Some(hovered);
        proof {
            lemma_armed_ids(v);
            assert(self@ =~= arming(v, 0));
        }
        match self.hand[hovered].card {
            Card::Entity(_) => {
                let friends = self.battlefield.friends.len();
                let foes = self.battlefield.foes.len();
                let mut friend_insert_pos_i: usize = 0;
                while friend_insert_pos_i < friends + 1
                    invariant
                        v.wf(),
                        v.can_arm(),
                        v.can_issue(v.friends.len() + 1),
                        friends == v.friends.len(),
                        foes == v.foes.len(),
                        friend_insert_pos_i <= friends + 1,
                        self@ == arming(v, friend_insert_pos_i as nat),
                        holds_ids(self.store(), self@),
                    decreases friends + 1 - friend_insert_pos_i,
                {
                    let ghost before = self.vis_elems;
                    let ghost u = self@;
                    let id = self.id_generator.generate_id();
                    let inserted = self.vis_elems.insert(
                        id,
                        VisElem {
                            pos: insert_pos_pos(friends, foes, friend_insert_pos_i),
                            animation: None,
                            what: VisElemWhat::BattlefieldInsertPos(
                                BattlefieldInsertPos(BattlefieldPos::Friend(friend_insert_pos_i)),
                            ),
                            selectable: false,
                            targetable: true,
                        },
                    );
                    self.battlefield.friend_insert_pos_vis_elem_ids.push(id);
                    proof {
                        lemma_arming_step(v, friend_insert_pos_i as nat);
                        assert(!before.known(id.value()));
                        assert(inserted);
                        assert(self@ =~= arming(v, (friend_insert_pos_i + 1) as nat));
                        lemma_lists_insert(
                            u.id_values(),
                            before@.dom(),
                            u.count() as int,
                            id.value(),
                        );
                        assert(self.store()@.dom() =~= before@.dom().insert(id.value()));
                        assert forall|k: u64| #[trigger] self.store().known(k) implies k
                            < self@.issued by {}
                    }
                    friend_insert_pos_i += 1;
                }
                proof {
                    lemma_arming_step(v, friends as nat);
                }
            },
            Card::Food => {},
        }
        self.settle();
    }

    /// What releasing the button does with the selected card.
    fn action(&self) -> (a: Option<Action>)
        requires
            self.wf(),
        ensures
            a == self@.action(),
    {
        match (self.selected, self.hovered) {
            (Some(selected), Some(hovered)) => {
                proof {
                    lemma_pick_in_range(self@.elements(), self@.cursor->0, self@.count());
                    lemma_held(self.store(), self@, hovered as int);
                }
                let target = self.vis_elems.get(self.id_of(self.role_at(hovered))).unwrap();
                if !target.targetable {
                    return None;
                }
                match (self.hand[selected].card, target.what) {
                    (
                        Card::Entity(kind),
                        VisElemWhat::BattlefieldInsertPos(
                            BattlefieldInsertPos(BattlefieldPos::Friend(at)),
                        ),
                    ) => Some(Action::Play { from: selected, kind, at }),
                    (Card::Food, VisElemWhat::Entity { where_on_battlefield }) => Some(
                        Action::Feed { from: selected, target: where_on_battlefield },
                    ),
                    _ => None,
                }
            },
            _ => None,
        }
    }

    /// The flight that an action starts.
    fn launch(&self, a: Action) -> (flight: Flight)
        requires
            self.wf(),
            self@.flight is None,
            self@.action() == Some(a),
        ensures
            flight == self@.launched(a),
    {
        let hand = self.hand.len();
        let friends = self.battlefield.friends.len();
        let foes = self.battlefield.foes.len();
        proof {
            lemma_action_in_range(self@);
        }
        match a {
            Action::Play { from, kind, at } => {
                let src_pos = hand_pos(hand, from, Transition::Rest);
                let mut elem = VisElem {
                    pos: VisElemPos { depth: FLOATING_DEPTH, ..src_pos },
                    animation: None,
                    what: VisElemWhat::FloatingCard {
                        from_hand: from,
                        dst: BattlefieldInsertPos(BattlefieldPos::Friend(at)),
                    },
                    selectable: false,
                    targetable: false,
                };
                elem.move_to(
                    insert_pos_pos(friends, foes, at),
                    TRANSFER_DURATION,
                    Some(self.hand[from].card),
                );
                Flight { vis_elem_id: self.hand[from].vis_elem_id, elem }
            },
            Action::Feed { from, target } => {
                proof {
                    let i = match target {
                        BattlefieldPos::Friend(i) => i,
                        BattlefieldPos::Foe(i) => i,
                    };
                    lemma_row_positions_tame(
                        friends as nat,
                        foes as nat,
                        hand as nat,
                        from as nat,
                        Transition::Rest,
                    );
                    lemma_row_positions_tame(
                        friends as nat,
                        foes as nat,
                        hand as nat,
                        i as nat,
                        Transition::Rest,
                    );
                }
                let src_pos = centered(hand_pos(hand, from, Transition::Rest));
                let dst_pos = centered(
                    match target {
                        BattlefieldPos::Friend(i) => friend_pos(friends, foes, i, Transition::Rest),
                        BattlefieldPos::Foe(i) => foe_pos(friends, foes, i, Transition::Rest),
                    },
                );
                let mut elem = VisElem {
                    pos: VisElemPos { depth: FLOATING_DEPTH, ..src_pos },
                    animation: None,
                    what: VisElemWhat::FloatingEffect { from_hand: from, target },
                    selectable: false,
                    targetable: false,
                };
                elem.move_to(dst_pos, TRANSFER_DURATION, Some(self.hand[from].card));
                Flight { vis_elem_id: self.hand[from].vis_elem_id, elem }
            },
        }
    }

    /// A button has been released. While a card is in flight, and for every
    /// button but the left one, nothing changes. Otherwise nothing is
    /// selected any more and the insertion positions are gone; and where the
    /// selected card was released over a target of its kind, the card has
    /// left the hand and is in flight toward the target.
    pub fn mouse_button_up_event(&mut self, button: MouseButton)
        requires
            old(self).wf(),
        ensures
            final(self).wf(),
            final(self)@ == if button is Left {
                old(self)@.released()
            } else {
                old(self)@
            },
    {
        match button {
            MouseButton::Left => {},
            _ => {
                return;
            },
        }
        if self.flight.is_some() {
            return;
        }
        let ghost v = self@;
        let action = self.action();
        let launched = match action {
            Some(a) => Some(self.launch(a)),
            None => None,
        };
        proof {
            lemma_released_wf(v);
            assert(v.insert_pos_ids.take(v.insert_pos_ids.len() as int) =~= v.insert_pos_ids);
            assert(self@ =~= shed(v, v.insert_pos_ids.len() as int));
        }
        while self.battlefield.friend_insert_pos_vis_elem_ids.len() > 0
            invariant
                v.wf(),
                v.flight is None,
                self.battlefield.friend_insert_pos_vis_elem_ids.len() <= v.insert_pos_ids.len(),
                self@ == shed(v, self.battlefield.friend_insert_pos_vis_elem_ids.len() as int),
                holds_ids(self.store(), self@),
            decreases self.battlefield.friend_insert_pos_vis_elem_ids.len(),
        {
            let ghost n = self.battlefield.friend_insert_pos_vis_elem_ids.len() as int;
            let ghost before = self.vis_elems;
            let ghost u = self@;
            let id = self.battlefield.friend_insert_pos_vis_elem_ids.pop().unwrap();
            self.vis_elems.remove(id);
            proof {
                lemma_shed_step(v, n);
                assert(id == v.insert_pos_ids[n - 1]);
                lemma_lists_remove(u.id_values(), before@.dom(), u.id_values().len() - 1);
                assert(self@ =~= shed(v, n - 1));
                assert forall|k: u64| #[trigger] self.store().known(k) implies k < self@.issued by {
                    assert(before.known(k));
                }
            }
        }
        self.selected = None;
        proof {
            assert(v.insert_pos_ids.take(0) =~= Seq::<Id>::empty());
            assert(self@ =~= cleared(v));
            assert(cleared(v).id_values() =~= shed(v, 0).id_values());
        }
        match (action, launched) {
            (Some(a), Some(flight)) => {
                let from = match a {
                    Action::Play { from, .. } => from,
                    Action::Feed { from, .. } => from,
                };
                proof {
                    lemma_action_in_range(v);
                    let base = cleared(v).id_values();
                    assert(base[from as int] == v.hand[from as int].vis_elem_id.value());
                    lemma_lists_remove(base, self.store()@.dom(), from as int);
                    lemma_lists_insert(
                        base.remove(from as int),
                        self.store()@.dom().remove(base[from as int]),
                        base.len() - 1,
                        base[from as int],
                    );
                    assert(base.remove(from as int).insert(base.len() - 1, base[from as int])
                        =~= base.remove(from as int).push(base[from as int]));
                    assert(self.store()@.dom().remove(base[from as int]).insert(base[from as int])
                        =~= self.store()@.dom());
                }
                self.hand.remove(from);
                self.flight = Some(flight);
                proof {
                    assert(self@ =~= launched_state(v, a));
                }
            },
            _ => {},
        }
        self.settle();
    }

    /// Time has passed: `dt` ticks. The clock of a card in flight advances;
    /// once its whole duration has elapsed, the card arrives: a creature
    /// card becomes a creature among the friends, a food card feeds its
    /// target; the animation and the visual element that showed the flight
    /// are gone.
    ///
    /// A creature that arrives needs a handle.
    pub fn update(&mut self, dt: u64)
        requires
            old(self).wf(),
            old(self)@.can_issue(old(self)@.tick_needs(dt)),
        ensures
            final(self).wf(),
            final(self)@ == old(self)@.ticked(dt),
    {
        let flight = match self.flight {
            Some(flight) => flight,
            None => {
                return;
            },
        };
        let ghost v = self@;
        proof {
            lemma_ticked_wf(v, dt);
        }
        let mut animation = flight.elem.animation.unwrap();
        animation.clock.advance(dt);
        if animation.clock.is_done() {
            self.land(flight, Ghost(dt));
        } else {
            self.flight = Some(
                Flight {
                    vis_elem_id: flight.vis_elem_id,
                    elem: VisElem { animation: Some(animation), ..flight.elem },
                },
            );
            proof {
                assert(self@ =~= v.with_clock(animation.clock));
            }
        }
        self.settle();
    }

    /// The card in flight arrives: a creature card becomes a creature among
    /// the friends, a food card feeds its target; the visual element that
    /// showed the flight leaves the store.
    fn land(&mut self, flight: Flight, Ghost(dt): Ghost<u64>)
        requires
            old(self).wf(),
            old(self)@.flight == Some(flight),
            flight.elem.animation->0.clock.spec_advanced(dt).spec_is_done(),
            old(self)@.can_issue(old(self)@.tick_needs(dt)),
        ensures
            final(self)@ == old(self)@.landed(),
            final(self)@.wf_core(),
            holds_ids(final(self).store(), final(self)@),
    {
        let ghost v = self@;
        proof {
            lemma_ticked_wf(v, dt);
        }
        let ghost before = self.vis_elems;
        self.vis_elems.remove(flight.vis_elem_id);
        self.flight = None;
        proof {
            lemma_lists_remove(v.id_values(), before@.dom(), v.count() - 1);
            assert(self@ =~= grounded(v));
            assert forall|k: u64| #[trigger] self.store().known(k) implies k < self@.issued by {
                assert(before.known(k));
            }
        }
        match (flight.elem.what, flight.elem.animation) {
            (
                VisElemWhat::FloatingCard {
                    dst: BattlefieldInsertPos(BattlefieldPos::Friend(friend_i)),
                    ..
                },
                Some(Animation { carried: Some(Card::Entity(kind)), .. }),
            ) => {
                let vis_elem_id = self.id_generator.generate_id();
                self.battlefield.friends.insert(
                    friend_i,
                    EntityOnBattlefield { entity: Entity::new(kind), vis_elem_id },
                );
                proof {
                    assert(self@ =~= v.landed());
                }
                self.register(
                    Role::Friend(friend_i),
                    Ghost(grounded(v)),
                    Ghost(v.hand.len() + friend_i),
                );
            },
            (VisElemWhat::FloatingEffect { target: BattlefieldPos::Friend(friend_i), .. }, _) => {
                let fed = self.battlefield.friends[friend_i].entity.fed();
                self.battlefield.friends[friend_i].entity = fed;
                proof {
                    assert(self@ =~= v.landed());
                }
            },
            (VisElemWhat::FloatingEffect { target: BattlefieldPos::Foe(foe_i), .. }, _) => {
                let fed = self.battlefield.foes[foe_i].entity.fed();
                self.battlefield.foes[foe_i].entity = fed;
                proof {
                    assert(self@ =~= v.landed());
                }
            },
            _ => {},
        }
    }

    /// The game as it opens on a canvas of the given extent.
    pub fn new(width: u32, height: u32) -> (g: Game)
        ensures
            g.wf(),
            g@ == GameView::opening(width, height),
    {
        let mut game = Game::empty(width, height);
        game.add_card_to_hand(Card::Entity(EntityKind::Fwog));
        game.add_card_to_hand(Card::Entity(EntityKind::Fwog));
        game.add_card_to_hand(Card::Entity(EntityKind::DragonFly));
        game.add_card_to_hand(Card::Food);
        game.spawn_entity_on_battlefield(
            EntityKind::DragonFly,
            BattlefieldInsertPos(BattlefieldPos::Foe(0)),
        );
        game
    }

    /// A key has been pressed. Whether the game is to be left: it is on the
    /// first press of the escape key, not while the key repeats.
    pub fn key_down_event(&self, keycode: Option<KeyCode>, repeated: bool) -> (quit: bool)
        ensures
            quit == (!repeated && keycode == Some(KeyCode::Escape)),
    {
        if repeated {
            return false;
        }
        match keycode {
            Some(KeyCode::Escape) => true,
            _ => false,
        }
    }

    /// Whether `n` more handles can be issued.
    pub fn can_issue(&self, n: u64) -> (b: bool)
        ensures
            b == self@.can_issue(n as nat),
    {
        self.id_generator.remaining() >= n
    }

    /// Whether there are handles for what a press of `button` makes.
    pub fn can_press(&self, button: MouseButton) -> (b: bool)
        requires
            self.wf(),
        ensures
            b == (button is Left ==> self@.can_issue(self@.press_needs())),
    {
        match button {
            MouseButton::Left => {},
            _ => {
                return true;
            },
        }
        if self.flight.is_some() || self.selected.is_some() {
            return true;
        }
        let hovered = match self.hovered {
            Some(hovered) => hovered,
            None => {
                return true;
            },
        };
        proof {
            lemma_pick_in_range(self@.elements(), self@.cursor->0, self@.count());
            lemma_held(self.store(), self@, hovered as int);
        }
        let hovered_vis_elem = self.vis_elems.get(self.id_of(self.role_at(hovered))).unwrap();
        if !hovered_vis_elem.selectable {
            return true;
        }
        proof {
            lemma_selectable_is_hand_card(self@, hovered as int);
        }
        match self.hand[hovered].card {
            Card::Entity(_) => self.id_generator.remaining() > self.battlefield.friends.len() as u64,
            Card::Food => true,
        }
    }

    /// Whether there is a handle for what the passing of `dt` ticks makes.
    pub fn can_update(&self, dt: u64) -> (b: bool)
        requires
            self.wf(),
        ensures
            b == self@.can_issue(self@.tick_needs(dt)),
    {
        match self.flight {
            Some(flight) => {
                let mut animation = flight.elem.animation.unwrap();
                animation.clock.advance(dt);
                match flight.elem.what {
                    VisElemWhat::FloatingCard { .. } => !animation.clock.is_done()
                        || self.id_generator.remaining() >= 1,
                    _ => true,
                }
            },
            None => true,
        }
    }

    /// Extent of the canvas.
    pub fn context_size(&self) -> (size: ScreenDimensions)
        ensures
            size == self@.canvas,
    {
        self.context_size
    }

    /// Where the cursor is.
    pub fn cursor_pos(&self) -> (cursor: Option<ScreenCoords>)
        ensures
            cursor == self@.cursor,
    {
        self.cursor_pos
    }

    /// The cards in the hand, from left to right.
    pub fn hand(&self) -> (hand: &Vec<CardInHand>)
        ensures
            hand@ == self@.hand,
    {
        &self.hand
    }

    /// The friends on the battlefield, from left to right.
    pub fn friends(&self) -> (friends: &Vec<EntityOnBattlefield>)
        ensures
            friends@ == self@.friends,
    {
        &self.battlefield.friends
    }

    /// The foes on the battlefield, from left to right.
    pub fn foes(&self) -> (foes: &Vec<EntityOnBattlefield>)
        ensures
            foes@ == self@.foes,
    {
        &self.battlefield.foes
    }

    /// The visual elements of the places where a friend can be inserted.
    pub fn friend_insert_pos_vis_elem_ids(&self) -> (ids: &Vec<Id>)
        ensures
            ids@ == self@.insert_pos_ids,
    {
        &self.battlefield.friend_insert_pos_vis_elem_ids
    }

    /// The card in flight, if any.
    pub fn flight(&self) -> (flight: Option<Flight>)
        ensures
            flight == self@.flight,
    {
        self.flight
    }

    /// The store of the visual elements.
    pub fn vis_elems(&self) -> (store: &Store)
        ensures
            *store == self.store(),
    {
        &self.vis_elems
    }

    /// The handle of the visual element that the cursor points at.
    pub fn hovered_vis_elem_id(&self) -> (id: Option<Id>)
        requires
            self.wf(),
        ensures
            id == match self@.hovered {
                Some(h) => Some(self@.id_at(h as int)),
                None => None,
            },
    {
        match self.hovered {
            Some(h) => {
                proof {
                    lemma_pick_in_range(self@.elements(), self@.cursor->0, self@.count());
                }
                Some(self.id_of(self.role_at(h)))
            },
            None => None,
        }
    }

    /// The handle of the visual element of the selected card.
    pub fn selected_vis_elem_id(&self) -> (id: Option<Id>)
        requires
            self.wf(),
        ensures
            id == match self@.selected {
                Some(k) => Some(self@.hand[k as int].vis_elem_id),
                None => None,
            },
    {
        match self.selected {
            Some(k) => Some(self.hand[k].vis_elem_id),
            None => None,
        }
    }

    /// The rectangle of something of extent `dims` placed by `pos` on the canvas.
    pub fn vis_elem_actual_rect(&self, pos: &VisElemPos, dims: ScreenDimensions) -> (r: Rect)
        requires
            self.store().wf(),
            self.store().resolvable(*pos, dims, self@.canvas),
        ensures
            r@ == self.store().spec_actual_rect(*pos, dims, self@.canvas),
    {
        self.vis_elems.actual_rect(pos, dims, self.context_size)
    }

    /// The store holds no animation but that of the card in flight: the
    /// game never holds more than one animation.
    pub proof fn lemma_one_animation(&self, k: u64)
        requires
            self.wf(),
            self.store()@.contains_key(k),
            self.store()@[k].animation is Some,
        ensures
            self@.flight matches Some(f) && f.vis_elem_id.value() == k,
    {
        let v = self@;
        let idx = choose|idx: int| 0 <= idx < v.id_values().len() && #[trigger] v.id_values()[idx] == k;
        lemma_held(self.store(), v, idx);
        lemma_single_animation(v, idx);
    }

    /// What is drawn of a visual element of the game.
    fn face(&self, elem: &VisElem, Ghost(idx): Ghost<int>) -> (face: Face)
        requires
            self.wf_core(),
            0 <= idx < self@.count(),
            *elem == self@.elem_at(idx),
        ensures
            face == self@.face_of(*elem),
    {
        proof {
            lemma_elements_tame(self@, idx);
        }
        match elem.what {
            VisElemWhat::Card { card, .. } => Face::Card(card),
            VisElemWhat::Entity { where_on_battlefield: BattlefieldPos::Friend(i) } => Face::Entity(
                self.battlefield.friends[i].entity,
            ),
            VisElemWhat::Entity { where_on_battlefield: BattlefieldPos::Foe(i) } => Face::Entity(
                self.battlefield.foes[i].entity,
            ),
            VisElemWhat::BattlefieldInsertPos(_) => Face::InsertPos,
            VisElemWhat::FloatingCard { .. } => match elem.animation {
                Some(Animation { carried: Some(card), .. }) => Face::FloatingCard(card),
                _ => Face::FloatingEffect,
            },
            VisElemWhat::FloatingEffect { .. } => Face::FloatingEffect,
        }
    }

    /// What is drawn for one visual element as it is shown.
    pub open spec fn spec_draw_vis_elem(&self, e: InterfaceElement) -> Seq<DrawCommand> {
        spec_element_commands(e, self@.face_of(self.store()@[e.what.value()]))
    }

    /// What is drawn for the first `n` of the elements of `order`, one after
    /// the other.
    pub open spec fn spec_draw_upto(&self, order: Seq<InterfaceElement>, n: nat) -> Seq<DrawCommand>
        decreases n,
    {
        if n == 0 {
            Seq::empty()
        } else {
            self.spec_draw_upto(order, (n - 1) as nat) + self.spec_draw_vis_elem(order[n - 1])
        }
    }

    /// Whether `cmds` is the frame that draws the visual elements in the
    /// order `order`: the order holds the visual elements as they are shown,
    /// from the background to the foreground, and `cmds` holds what is drawn
    /// for each in turn, and then the line from the selected card to the
    /// cursor.
    pub open spec fn draws(&self, order: Seq<InterfaceElement>, cmds: Seq<DrawCommand>) -> bool {
        &&& order.to_multiset() == self@.elements().to_multiset()
        &&& back_to_front_order(order)
        &&& cmds == self.spec_draw_upto(order, order.len()) + self@.selection_line()
    }

    /// The frame of a game is one: whatever order from the background to
    /// the foreground the visual elements are taken in, it is the same
    /// order, and so are the commands.
    pub proof fn lemma_frame_unique(
        &self,
        order: Seq<InterfaceElement>,
        cmds: Seq<DrawCommand>,
        other_order: Seq<InterfaceElement>,
        other_cmds: Seq<DrawCommand>,
    )
        requires
            self.wf(),
            self.draws(order, cmds),
            self.draws(other_order, other_cmds),
        ensures
            order == other_order,
            cmds == other_cmds,
    {
        lemma_elements_distinct(self@);
        lemma_distinct_handles_by_elements(self@.elements(), order);
        lemma_back_to_front_unique(order, other_order);
    }

    /// What is drawn for one visual element as it is shown.
    pub fn draw_vis_elem(&self, e: &InterfaceElement) -> (cmds: Vec<DrawCommand>)
        requires
            self.wf_core(),
            self@.elements().contains(*e),
        ensures
            cmds@ == self.spec_draw_vis_elem(*e),
    {
        let ghost idx = choose|idx: int|
            0 <= idx < self@.elements().len() && self@.elements()[idx] == *e;
        proof {
            lemma_held(self.store(), self@, idx);
            lemma_element_drawable(self@, idx);
        }
        let vis_elem = self.vis_elems.get(e.what).unwrap();
        element_commands(e, self.face(&vis_elem, Ghost(idx)))
    }

    /// The visual elements as they are shown, in the order in which they
    /// are drawn: from the background to the foreground.
    pub fn draw_order(&self) -> (order: Vec<InterfaceElement>)
        requires
            self.wf_core(),
        ensures
            order@.to_multiset() == self@.elements().to_multiset(),
            back_to_front_order(order@),
    {
        let elems = self.interface_elements();
        back_to_front(&elems)
    }

    /// The frame: what is drawn for each visual element, from the
    /// background to the foreground, and then the line from the selected
    /// card to the cursor.
    pub fn draw(&self) -> (cmds: Vec<DrawCommand>)
        requires
            self.wf(),
        ensures
            exists|order: Seq<InterfaceElement>| #[trigger] self.draws(order, cmds@),
    {
        let order = self.draw_order();
        let mut cmds: Vec<DrawCommand> = Vec::new();
        let mut i: usize = 0;
        while i < order.len()
            invariant
                self.wf(),
                i <= order.len(),
                order@.to_multiset() == self@.elements().to_multiset(),
                cmds@ == self.spec_draw_upto(order@, i as nat),
            decreases order.len() - i,
        {
            proof {
                to_multiset_contains(order@, order@[i as int]);
                to_multiset_contains(self@.elements(), order@[i as int]);
                assert(order@.contains(order@[i as int]));
            }
            let more = self.draw_vis_elem(&order[i]);
            append(&mut cmds, &more);
            i += 1;
        }
        match (self.selected, self.cursor_pos) {
            (Some(k), Some(c)) => {
                proof {
                    lemma_held(self.store(), self@, k as int);
                    lemma_element_drawable(self@, k as int);
                    lemma_elements_tame(self@, k as int);
                }
                let vis_elem = self.vis_elems.get(self.hand[k].vis_elem_id).unwrap();
                let rect = self.shown_rect(&vis_elem);
                cmds.push(
                    DrawCommand::Line {
                        from: rect.center(),
                        to: c,
                        tint: Tint::Selection,
                        thickness: LINE_THICKNESS,
                    },
                );
            },
            _ => {},
        }
        proof {
            assert(cmds@ =~= self.spec_draw_upto(order@, order@.len()) + self@.selection_line());
            assert(self.draws(order@, cmds@));
        }
        cmds
    }
}

/// Adds the commands of `more` to `cmds`, in their order.
fn append(cmds: &mut Vec<DrawCommand>, more: &Vec<DrawCommand>)
    ensures
        final(cmds)@ == old(cmds)@ + more@,
{
    let mut i: usize = 0;
    while i < more.len()
        invariant
            i <= more.len(),
            cmds@ == old(cmds)@ + more@.take(i as int),
        decreases more.len() - i,
    {
        cmds.push(more[i]);
        assert(more@.take(i as int + 1) =~= more@.take(i as int).push(more@[i as int]));
        i += 1;
    }
    assert(more@.take(more@.len() as int) =~= more@);
}

/// The same position, with the middle of a card in place of the middle of
/// its left edge.
fn centered(pos: VisElemPos) -> (c: VisElemPos)
    requires
        snug(pos),
    ensures
        c == spec_centered(pos),
{
    VisElemPos {
        pin_point: PinPoint::center_center(),
        coords: Vec2 { x: pos.coords.x + CARD_WIDTH / 2, y: pos.coords.y },
        ..pos
    }
}

} // verus!
