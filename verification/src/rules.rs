//! The game as a mathematical state, and what each event makes of it.
//!
//! A `GameView` holds what the players of the game can tell apart: the cards
//! in the hand, the creatures on the battlefield, the card in flight, the
//! cursor, and what is hovered and selected. The visual elements are a
//! function of it, and so is each event handler.

use vstd::prelude::*;
use crate::clock::{spec_lerp, AnimationClock, Fraction};
use crate::draw::{DrawCommand, Face, Tint, LINE_THICKNESS};
use crate::geometry::{Frame, Rect, ScreenCoords, ScreenDimensions, Vec2};
use crate::id_generator::Id;
use crate::interface::{spec_pick, InterfaceElement};
use crate::layout::{
    spec_foe_pos, spec_friend_pos, spec_hand_pos, spec_insert_pos_pos, tame, tame_extent,
    FLOATING_DEPTH, TRANSFER_DURATION,
};
use crate::model::{
    Animation, BattlefieldInsertPos, BattlefieldPos, Card, CardInHand, Entity, EntityKind,
    EntityOnBattlefield, Flight, VisElem, VisElemPos, VisElemWhat, CARD_WIDTH,
};
use crate::pin_point::PinPoint;
use crate::reflow::{Transition, ROW_CAPACITY};
use crate::store::{canvas_frame, place};

verus! {

/// What stands at an index of the list of visual elements: the cards of the
/// hand come first, then the friends, the foes, the insertion positions,
/// and last the card in flight.
#[derive(Clone, Copy, PartialEq, Eq, Debug)]
pub enum Role {
    HandCard(usize),
    Friend(usize),
    Foe(usize),
    InsertPos(usize),
    Flight,
}

/// What releasing the button over a target does with the selected card.
#[derive(Clone, Copy, PartialEq, Eq, Debug)]
pub enum Action {
    /// The creature card at `from` in the hand goes to the battlefield, to
    /// stand at `at` among the friends.
    Play { from: usize, kind: EntityKind, at: usize },
    /// The food card at `from` in the hand goes to the creature at `target`.
    Feed { from: usize, target: BattlefieldPos },
}

/// Whether every handle value of the sequence is below `bound`.
pub open spec fn issued_before(ids: Seq<u64>, bound: int) -> bool {
    forall|i: int| 0 <= i < ids.len() ==> #[trigger] ids[i] < bound
}

/// The rectangle that holds a frame.
pub open spec fn rect_of(frame: Frame) -> Rect {
    Rect { x: frame.x as i64, y: frame.y as i64, w: frame.w as i64, h: frame.h as i64 }
}

/// The rectangle at which an element without a parent is shown now: where
/// its position puts it on the canvas, or, while it is animated, the point
/// between there and its destination that the clock's progress gives.
pub open spec fn shown_frame(elem: VisElem, canvas: ScreenDimensions) -> Frame {
    let dims = elem.what.spec_dimensions();
    let from = place(canvas_frame(canvas), elem.pos, dims);
    match elem.animation {
        None => from,
        Some(a) => {
            let to = place(canvas_frame(canvas), a.dst_pos, dims);
            Frame {
                x: spec_lerp(from.x, to.x, a.clock.elapsed() as int, a.clock.duration() as int),
                y: spec_lerp(from.y, to.y, a.clock.elapsed() as int, a.clock.duration() as int),
                w: from.w,
                h: from.h,
            }
        },
    }
}

/// The same position, with the middle of a card in place of the middle of
/// its left edge.
pub open spec fn spec_centered(pos: VisElemPos) -> VisElemPos {
    VisElemPos {
        pin_point: PinPoint { x: 500, y: 500 },
        coords: Vec2 { x: (pos.coords.x + CARD_WIDTH / 2) as i64, y: pos.coords.y },
        ..pos
    }
}

/// The state of the game, as far as its players can tell.
#[verifier::ext_equal]
pub struct GameView {
    /// How many handles have been issued.
    pub issued: nat,
    /// Extent of the canvas.
    pub canvas: ScreenDimensions,
    pub hand: Seq<CardInHand>,
    pub friends: Seq<EntityOnBattlefield>,
    pub foes: Seq<EntityOnBattlefield>,
    /// The visual elements of the places where a friend can be inserted.
    /// They exist while a creature card is selected.
    pub insert_pos_ids: Seq<Id>,
    /// The card in flight, if any.
    pub flight: Option<Flight>,
    pub cursor: Option<ScreenCoords>,
    /// The index, in the list of visual elements, of the one the cursor points at.
    pub hovered: Option<usize>,
    /// The index, in the hand, of the card that is selected.
    pub selected: Option<usize>,
}

impl GameView {
    /// Whether a card is in flight.
    pub open spec fn animating(self) -> bool {
        self.flight is Some
    }

    /// Number of cards in the hand, in flight, and of creatures on the battlefield.
    pub open spec fn population(self) -> nat {
        self.hand.len() + self.friends.len() + self.foes.len() + if self.flight is Some {
            1nat
        } else {
            0nat
        }
    }

    /// Number of visual elements.
    pub open spec fn count(self) -> nat {
        self.population() + self.insert_pos_ids.len()
    }

    /// Number of visual elements that stand in the rows of the hand and of
    /// the battlefield.
    pub open spec fn rows_end(self) -> nat {
        self.hand.len() + self.friends.len() + self.foes.len() + self.insert_pos_ids.len()
    }

    /// What stands at an index of the list of visual elements.
    pub open spec fn role_at(self, idx: int) -> Role {
        let h = self.hand.len();
        let f = self.friends.len();
        let e = self.foes.len();
        let s = self.insert_pos_ids.len();
        if idx < h {
            Role::HandCard(idx as usize)
        } else if idx < h + f {
            Role::Friend((idx - h) as usize)
        } else if idx < h + f + e {
            Role::Foe((idx - h - f) as usize)
        } else if idx < h + f + e + s {
            Role::InsertPos((idx - h - f - e) as usize)
        } else {
            Role::Flight
        }
    }

    /// How far the card in flight has come.
    pub open spec fn progress(self) -> Fraction {
        self.flight->0.elem.animation->0.clock.spec_progress()
    }

    /// What is happening to the row of the hand: the card in flight has left it.
    pub open spec fn hand_transition(self) -> Transition {
        match self.flight {
            Some(f) => match f.elem.what {
                VisElemWhat::FloatingCard { from_hand, .. } => Transition::Remove {
                    at: from_hand,
                    progress: self.progress(),
                },
                VisElemWhat::FloatingEffect { from_hand, .. } => Transition::Remove {
                    at: from_hand,
                    progress: self.progress(),
                },
                _ => Transition::Rest,
            },
            None => Transition::Rest,
        }
    }

    /// What is happening to the row of the battlefield: a creature card in
    /// flight is about to be inserted.
    pub open spec fn battlefield_transition(self) -> Transition {
        match self.flight {
            Some(f) => match f.elem.what {
                VisElemWhat::FloatingCard {
                    dst: BattlefieldInsertPos(BattlefieldPos::Friend(at)),
                    ..
                } => Transition::Insert { at, progress: self.progress() },
                _ => Transition::Rest,
            },
            None => Transition::Rest,
        }
    }

    /// Whether the selected card is food.
    pub open spec fn food_armed(self) -> bool {
        self.selected matches Some(k) && self.hand[k as int].card is Food
    }

    /// Whether the selected card is a creature.
    pub open spec fn entity_armed(self) -> bool {
        self.selected matches Some(k) && self.hand[k as int].card is Entity
    }

    /// Whether something stands in a role.
    pub open spec fn has_role(self, role: Role) -> bool {
        match role {
            Role::HandCard(i) => i < self.hand.len(),
            Role::Friend(i) => i < self.friends.len(),
            Role::Foe(i) => i < self.foes.len(),
            Role::InsertPos(i) => i < self.insert_pos_ids.len(),
            Role::Flight => self.flight is Some,
        }
    }

    /// The handle of the visual element in a role.
    pub open spec fn id_of(self, role: Role) -> Id {
        match role {
            Role::HandCard(i) => self.hand[i as int].vis_elem_id,
            Role::Friend(i) => self.friends[i as int].vis_elem_id,
            Role::Foe(i) => self.foes[i as int].vis_elem_id,
            Role::InsertPos(i) => self.insert_pos_ids[i as int],
            Role::Flight => self.flight->0.vis_elem_id,
        }
    }

    /// The visual element in a role. A card in the hand can be selected;
    /// creatures are targets while a food card is selected; the insertion
    /// positions, which exist while a creature card is selected, are targets.
    pub open spec fn elem_of(self, role: Role) -> VisElem {
        let h = self.hand.len();
        let f = self.friends.len();
        let e = self.foes.len();
        match role {
            Role::HandCard(i) => VisElem {
                pos: spec_hand_pos(h, i as nat, self.hand_transition()),
                animation: None,
                what: VisElemWhat::Card { card: self.hand[i as int].card, where_in_hand: i },
                selectable: true,
                targetable: false,
            },
            Role::Friend(i) => VisElem {
                pos: spec_friend_pos(f, e, i as nat, self.battlefield_transition()),
                animation: None,
                what: VisElemWhat::Entity { where_on_battlefield: BattlefieldPos::Friend(i) },
                selectable: false,
                targetable: self.food_armed(),
            },
            Role::Foe(i) => VisElem {
                pos: spec_foe_pos(f, e, i as nat, self.battlefield_transition()),
                animation: None,
                what: VisElemWhat::Entity { where_on_battlefield: BattlefieldPos::Foe(i) },
                selectable: false,
                targetable: self.food_armed(),
            },
            Role::InsertPos(i) => VisElem {
                pos: spec_insert_pos_pos(f, e, i as nat),
                animation: None,
                what: VisElemWhat::BattlefieldInsertPos(
                    BattlefieldInsertPos(BattlefieldPos::Friend(i)),
                ),
                selectable: false,
                targetable: true,
            },
            Role::Flight => self.flight->0.elem,
        }
    }

    /// The handle of the visual element at an index of the list.
    pub open spec fn id_at(self, idx: int) -> Id {
        self.id_of(self.role_at(idx))
    }

    /// The visual element at an index of the list.
    pub open spec fn elem_at(self, idx: int) -> VisElem {
        self.elem_of(self.role_at(idx))
    }

    /// The values of the handles of the visual elements, in the order of the list.
    pub open spec fn id_values(self) -> Seq<u64> {
        Seq::new(self.count(), |idx: int| self.id_at(idx).value())
    }

    /// The visual element at an index of the list, as it is shown.
    pub open spec fn element(self, idx: int) -> InterfaceElement {
        let elem = self.elem_at(idx);
        InterfaceElement {
            rect: rect_of(shown_frame(elem, self.canvas)),
            depth: elem.pos.depth,
            hovered: self.hovered == Some(idx as usize),
            selected: self.selected == Some(idx as usize),
            targetable: elem.targetable,
            what: self.id_at(idx),
        }
    }

    /// What is drawn of a visual element: the card it shows, or the
    /// creature with its stats.
    pub open spec fn face_of(self, elem: VisElem) -> Face {
        match elem.what {
            VisElemWhat::Card { card, .. } => Face::Card(card),
            VisElemWhat::Entity { where_on_battlefield: BattlefieldPos::Friend(i) } => Face::Entity(
                self.friends[i as int].entity,
            ),
            VisElemWhat::Entity { where_on_battlefield: BattlefieldPos::Foe(i) } => Face::Entity(
                self.foes[i as int].entity,
            ),
            VisElemWhat::BattlefieldInsertPos(_) => Face::InsertPos,
            VisElemWhat::FloatingCard { .. } => match elem.animation {
                Some(Animation { carried: Some(card), .. }) => Face::FloatingCard(card),
                _ => Face::FloatingEffect,
            },
            VisElemWhat::FloatingEffect { .. } => Face::FloatingEffect,
        }
    }

    /// The line from the middle of the selected card to the cursor, which
    /// shows that the card will go where the button is released.
    pub open spec fn selection_line(self) -> Seq<DrawCommand> {
        match (self.selected, self.cursor) {
            (Some(k), Some(c)) => {
                let rect = self.element(k as int).rect;
                seq![
                    DrawCommand::Line {
                        from: Vec2 {
                            x: (rect.x + rect.w / 2) as i64,
                            y: (rect.y + rect.h / 2) as i64,
                        },
                        to: c,
                        tint: Tint::Selection,
                        thickness: LINE_THICKNESS,
                    },
                ]
            },
            _ => Seq::empty(),
        }
    }

    /// The visual elements as they are shown.
    pub open spec fn elements(self) -> Seq<InterfaceElement> {
        Seq::new(self.count(), |idx: int| self.element(idx))
    }

    /// The index of the visual element that the cursor points at.
    pub open spec fn hover(self) -> Option<usize> {
        match self.cursor {
            None => None,
            Some(c) => spec_pick(self.elements(), c, self.count()),
        }
    }

    /// Whether the card in flight is as a flight of this game can be: it is
    /// animated and has not arrived, it goes from a place in the hand to a
    /// place on the battlefield, and it carries a card of the matching kind.
    pub open spec fn flight_wf(self, f: Flight) -> bool {
        &&& f.elem.animation matches Some(a) && a.clock.wf() && !a.clock.spec_is_done() && tame(
            a.dst_pos,
        ) && match f.elem.what {
            VisElemWhat::FloatingCard {
                from_hand,
                dst: BattlefieldInsertPos(BattlefieldPos::Friend(at)),
            } => from_hand <= self.hand.len() && at <= self.friends.len() && a.carried matches Some(
                Card::Entity(_),
            ),
            VisElemWhat::FloatingEffect { from_hand, target } => from_hand <= self.hand.len()
                && a.carried == Some(Card::Food) && match target {
                BattlefieldPos::Friend(i) => i < self.friends.len(),
                BattlefieldPos::Foe(i) => i < self.foes.len(),
            },
            _ => false,
        }
        &&& tame(f.elem.pos)
        &&& !f.elem.selectable
        &&& !f.elem.targetable
    }

    /// All that holds of a game in every state, but for what is hovered.
    pub open spec fn wf_core(self) -> bool {
        &&& tame_extent(self.canvas)
        &&& self.population() <= ROW_CAPACITY
        &&& self.insert_pos_ids.len() == if self.entity_armed() {
            self.friends.len() + 1
        } else {
            0
        }
        &&& self.selected matches Some(k) ==> k < self.hand.len() && self.flight is None
        &&& self.flight matches Some(f) ==> self.flight_wf(f)
        &&& self.issued <= u64::MAX
        &&& issued_before(self.id_values(), self.issued as int)
        &&& self.id_values().no_duplicates()
    }

    /// All that holds of a game in every state: the hand, the battlefield
    /// and the card in flight hold no more than a row can; the insertion
    /// positions exist exactly while a creature card is selected; nothing
    /// is selected while a card is in flight; the handles are distinct and
    /// were all issued; and what is hovered is what the cursor points at.
    pub open spec fn wf(self) -> bool {
        &&& self.wf_core()
        &&& self.hovered == self.hover()
    }

    /// Whether `n` more handles can be issued.
    pub open spec fn can_issue(self, n: nat) -> bool {
        self.issued + n <= u64::MAX
    }

    /// The same state, with what the cursor points at as the hovered element.
    pub open spec fn with_hover(self) -> GameView {
        GameView { hovered: self.hover(), ..self }
    }
}

impl GameView {
    /// The state after the cursor has moved to `(x, y)`.
    pub open spec fn moved(self, x: i64, y: i64) -> GameView {
        GameView { cursor: Some(Vec2 { x, y }), ..self }.with_hover()
    }

    /// The state after the canvas has taken the extent `(width, height)`.
    /// Nothing but the canvas and what is hovered changes: a card in flight
    /// keeps its progress.
    pub open spec fn resized(self, width: u32, height: u32) -> GameView {
        GameView { canvas: Vec2 { x: width as i64, y: height as i64 }, ..self }.with_hover()
    }

    /// Whether pressing the button selects something: no card is in flight,
    /// nothing is selected, and the hovered element can be selected.
    pub open spec fn can_arm(self) -> bool {
        &&& self.flight is None
        &&& self.selected is None
        &&& self.hovered matches Some(h) && h < self.count() && self.elem_at(h as int).selectable
    }

    /// Whether pressing the button selects a creature card, so that
    /// insertion positions are made.
    pub open spec fn arms_entity(self) -> bool {
        self.can_arm() && self.hand[self.hovered->0 as int].card is Entity
    }

    /// How many handles a press of the button issues: one for each
    /// insertion position that it makes.
    pub open spec fn press_needs(self) -> nat {
        if self.arms_entity() {
            self.friends.len() + 1
        } else {
            0
        }
    }

    /// The state after the button has been pressed. Where something can be
    /// selected, the hovered card becomes the selected one, and where it is
    /// a creature card, an insertion position appears in each gap of the
    /// friends, under handles issued for them. Otherwise nothing changes.
    pub open spec fn pressed(self) -> GameView {
        if !self.can_arm() {
            self
        } else {
            let armed = GameView { selected: self.hovered, ..self };
            if armed.entity_armed() {
                GameView {
                    insert_pos_ids: Seq::new(
                        self.friends.len() + 1,
                        |j: int| Id::of((self.issued + j) as u64),
                    ),
                    issued: self.issued + self.friends.len() + 1,
                    ..armed
                }.with_hover()
            } else {
                armed.with_hover()
            }
        }
    }

    /// What releasing the button does with the selected card: a creature
    /// card over an insertion position is played there, a food card over a
    /// creature feeds it, and nothing happens otherwise.
    pub open spec fn action(self) -> Option<Action> {
        match (self.selected, self.hovered) {
            (Some(k), Some(h)) => if h < self.count() && self.elem_at(h as int).targetable {
                match (self.hand[k as int].card, self.elem_at(h as int).what) {
                    (
                        Card::Entity(kind),
                        VisElemWhat::BattlefieldInsertPos(
                            BattlefieldInsertPos(BattlefieldPos::Friend(at)),
                        ),
                    ) => Some(Action::Play { from: k, kind, at }),
                    (Card::Food, VisElemWhat::Entity { where_on_battlefield }) => Some(
                        Action::Feed { from: k, target: where_on_battlefield },
                    ),
                    _ => None,
                }
            } else {
                None
            },
            _ => None,
        }
    }

    /// The flight that an action starts: the visual element of the card
    /// leaves the hand and floats, from where the card is, toward the
    /// rectangle of the target, carrying the card.
    pub open spec fn launched(self, a: Action) -> Flight {
        let h = self.hand.len();
        let f = self.friends.len();
        let e = self.foes.len();
        match a {
            Action::Play { from, kind, at } => Flight {
                vis_elem_id: self.hand[from as int].vis_elem_id,
                elem: VisElem {
                    pos: VisElemPos {
                        depth: FLOATING_DEPTH,
                        ..spec_hand_pos(h, from as nat, Transition::Rest)
                    },
                    animation: Some(
                        Animation {
                            clock: AnimationClock::spec_start(TRANSFER_DURATION),
                            dst_pos: spec_insert_pos_pos(f, e, at as nat),
                            carried: Some(self.hand[from as int].card),
                        },
                    ),
                    what: VisElemWhat::FloatingCard {
                        from_hand: from,
                        dst: BattlefieldInsertPos(BattlefieldPos::Friend(at)),
                    },
                    selectable: false,
                    targetable: false,
                },
            },
            Action::Feed { from, target } => Flight {
                vis_elem_id: self.hand[from as int].vis_elem_id,
                elem: VisElem {
                    pos: VisElemPos {
                        depth: FLOATING_DEPTH,
                        ..spec_centered(spec_hand_pos(h, from as nat, Transition::Rest))
                    },
                    animation: Some(
                        Animation {
                            clock: AnimationClock::spec_start(TRANSFER_DURATION),
                            dst_pos: spec_centered(
                                match target {
                                    BattlefieldPos::Friend(i) => spec_friend_pos(
                                        f,
                                        e,
                                        i as nat,
                                        Transition::Rest,
                                    ),
                                    BattlefieldPos::Foe(i) => spec_foe_pos(
                                        f,
                                        e,
                                        i as nat,
                                        Transition::Rest,
                                    ),
                                },
                            ),
                            carried: Some(self.hand[from as int].card),
                        },
                    ),
                    what: VisElemWhat::FloatingEffect { from_hand: from, target },
                    selectable: false,
                    targetable: false,
                },
            },
        }
    }

    /// The state after the button has been released. While a card is in
    /// flight nothing changes. Otherwise nothing is selected any more and
    /// the insertion positions are gone; and where the release does
    /// something with the selected card, the card has left the hand and is
    /// in flight.
    pub open spec fn released(self) -> GameView {
        if self.flight is Some {
            self
        } else {
            let cleared = GameView { selected: None, insert_pos_ids: Seq::empty(), ..self };
            match self.action() {
                None => cleared.with_hover(),
                Some(a) => GameView {
                    hand: self.hand.remove(
                        match a {
                            Action::Play { from, .. } => from as int,
                            Action::Feed { from, .. } => from as int,
                        },
                    ),
                    flight: Some(self.launched(a)),
                    ..cleared
                }.with_hover(),
            }
        }
    }

    /// The state when the card in flight has arrived: a creature card
    /// stands on the battlefield as a creature with the stats it starts
    /// with, under a handle issued for it; a food card has fed its target.
    /// No card is in flight any more.
    pub open spec fn landed(self) -> GameView {
        let f = self.flight->0;
        let grounded = GameView { flight: None, ..self };
        match f.elem.what {
            VisElemWhat::FloatingCard { dst: BattlefieldInsertPos(BattlefieldPos::Friend(at)), .. } => {
                match f.elem.animation->0.carried {
                    Some(Card::Entity(kind)) => GameView {
                        friends: self.friends.insert(
                            at as int,
                            EntityOnBattlefield {
                                entity: Entity::spec_new(kind),
                                vis_elem_id: Id::of(self.issued as u64),
                            },
                        ),
                        issued: self.issued + 1,
                        ..grounded
                    },
                    _ => grounded,
                }
            },
            VisElemWhat::FloatingEffect { target: BattlefieldPos::Friend(i), .. } => GameView {
                friends: self.friends.update(
                    i as int,
                    EntityOnBattlefield {
                        entity: self.friends[i as int].entity.spec_fed(),
                        ..self.friends[i as int]
                    },
                ),
                ..grounded
            },
            VisElemWhat::FloatingEffect { target: BattlefieldPos::Foe(i), .. } => GameView {
                foes: self.foes.update(
                    i as int,
                    EntityOnBattlefield {
                        entity: self.foes[i as int].entity.spec_fed(),
                        ..self.foes[i as int]
                    },
                ),
                ..grounded
            },
            _ => grounded,
        }
    }

    /// The state with the clock of the card in flight set to `clock`.
    pub open spec fn with_clock(self, clock: AnimationClock) -> GameView {
        let f = self.flight->0;
        GameView {
            flight: Some(
                Flight {
                    elem: VisElem {
                        animation: Some(Animation { clock, ..f.elem.animation->0 }),
                        ..f.elem
                    },
                    ..f
                },
            ),
            ..self
        }
    }

    /// Whether a creature card arrives when `dt` ticks pass.
    pub open spec fn lands_entity(self, dt: u64) -> bool {
        self.flight matches Some(f) && f.elem.what is FloatingCard
            && f.elem.animation->0.clock.spec_advanced(dt).spec_is_done()
    }

    /// How many handles the passing of `dt` ticks issues: one for a creature
    /// that arrives.
    pub open spec fn tick_needs(self, dt: u64) -> nat {
        if self.lands_entity(dt) {
            1
        } else {
            0
        }
    }

    /// The state after `dt` ticks have passed. Without a card in flight
    /// nothing changes. The clock of a card in flight advances; once its
    /// whole duration has elapsed, the card arrives.
    pub open spec fn ticked(self, dt: u64) -> GameView {
        match self.flight {
            None => self,
            Some(f) => {
                let clock = f.elem.animation->0.clock.spec_advanced(dt);
                if clock.spec_is_done() {
                    self.landed().with_hover()
                } else {
                    self.with_clock(clock).with_hover()
                }
            },
        }
    }

    /// Whether the game is at rest: no card is in flight, none is selected.
    pub open spec fn idle(self) -> bool {
        self.flight is None && self.selected is None
    }

    /// Whether one more card or creature can enter the game.
    pub open spec fn has_room(self) -> bool {
        self.idle() && self.population() < ROW_CAPACITY
    }

    /// The state with one more card in the hand, as its last card, under a
    /// handle issued for it.
    pub open spec fn with_card(self, card: Card) -> GameView {
        GameView {
            hand: self.hand.push(CardInHand { card, vis_elem_id: Id::of(self.issued as u64) }),
            issued: self.issued + 1,
            ..self
        }
    }

    /// The state after a card has entered the hand. A game that has no room
    /// stays as it is.
    pub open spec fn dealt(self, card: Card) -> GameView {
        if !self.has_room() {
            self
        } else {
            self.with_card(card).with_hover()
        }
    }

    /// Whether a creature can be put on the battlefield at `insert_pos`.
    pub open spec fn can_spawn(self, insert_pos: BattlefieldInsertPos) -> bool {
        self.has_room() && match insert_pos.0 {
            BattlefieldPos::Friend(i) => i <= self.friends.len(),
            BattlefieldPos::Foe(i) => i <= self.foes.len(),
        }
    }

    /// The state with one more creature of the given kind on the battlefield
    /// at `insert_pos`, with the stats it starts with, under a handle issued
    /// for it.
    pub open spec fn with_entity(self, kind: EntityKind, insert_pos: BattlefieldInsertPos) -> GameView {
        let entity = EntityOnBattlefield {
            entity: Entity::spec_new(kind),
            vis_elem_id: Id::of(self.issued as u64),
        };
        match insert_pos.0 {
            BattlefieldPos::Friend(i) => GameView {
                friends: self.friends.insert(i as int, entity),
                issued: self.issued + 1,
                ..self
            },
            BattlefieldPos::Foe(i) => GameView {
                foes: self.foes.insert(i as int, entity),
                issued: self.issued + 1,
                ..self
            },
        }
    }

    /// The state after a creature of the given kind has been put on the
    /// battlefield at `insert_pos`. Where it cannot be put there, the game
    /// stays as it is.
    pub open spec fn spawned(self, kind: EntityKind, insert_pos: BattlefieldInsertPos) -> GameView {
        if !self.can_spawn(insert_pos) {
            self
        } else {
            self.with_entity(kind, insert_pos).with_hover()
        }
    }

    /// The game as it opens on a canvas of the given extent: two fwogs, a
    /// dragonfly and food in the hand, and a dragonfly as the one foe.
    pub open spec fn opening(width: u32, height: u32) -> GameView {
        GameView::empty(width, height).dealt(Card::Entity(EntityKind::Fwog)).dealt(
            Card::Entity(EntityKind::Fwog),
        ).dealt(Card::Entity(EntityKind::DragonFly)).dealt(Card::Food).spawned(
            EntityKind::DragonFly,
            BattlefieldInsertPos(BattlefieldPos::Foe(0)),
        )
    }

    /// A game on a canvas of the given extent with nothing in it.
    pub open spec fn empty(width: u32, height: u32) -> GameView {
        GameView {
            issued: 0,
            canvas: Vec2 { x: width as i64, y: height as i64 },
            hand: Seq::empty(),
            friends: Seq::empty(),
            foes: Seq::empty(),
            insert_pos_ids: Seq::empty(),
            flight: None,
            cursor: None,
            hovered: None,
            selected: None,
        }
    }
}

/// What is hovered has no part in which element the cursor points at; so a
/// state that is well formed but for what is hovered becomes well formed
/// when the hovered element is brought up to date.
pub proof fn lemma_with_hover(v: GameView)
    requires
        v.wf_core(),
    ensures
        v.with_hover().wf(),
        v.with_hover().hover() == v.hover(),
{
    let w = v.with_hover();
    assert forall|idx: int| w.id_at(idx) == v.id_at(idx) by {}
    assert forall|idx: int| w.elem_at(idx) == v.elem_at(idx) by {}
    assert(w.id_values() =~= v.id_values());
    if let Some(c) = v.cursor {
        crate::interface::lemma_pick_ignores_flags(v.elements(), w.elements(), c, v.count());
    }
}

} // verus!
