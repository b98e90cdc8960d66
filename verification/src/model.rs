//! The things on the table: cards, creatures, and the visual elements that
//! show them.

use vstd::prelude::*;
use crate::clock::AnimationClock;
use crate::geometry::{ScreenCoords, ScreenDimensions, Vec2};
use crate::id_generator::Id;
use crate::pin_point::PinPoint;

verus! {

/// Extent of a card, in the hand or on the battlefield.
pub const CARD_WIDTH: i64 = 200;

/// Extent of a card, in the hand or on the battlefield.
pub const CARD_HEIGHT: i64 = 300;

/// Extent of the mark of an insertion position.
pub const INSERT_POS_WIDTH: i64 = 40;

/// Extent of the mark of an insertion position.
pub const INSERT_POS_HEIGHT: i64 = 50;

/// Extent of the icon of an effect in flight.
pub const EFFECT_WIDTH: i64 = 60;

/// Extent of the icon of an effect in flight.
pub const EFFECT_HEIGHT: i64 = 60;

/// Hit points that a fwog starts with.
pub const FWOG_HIT_POINTS: u32 = 3;

/// Hit points that a dragonfly starts with.
pub const DRAGON_FLY_HIT_POINTS: u32 = 2;

/// How much food one food card gives.
pub const FOOD_PER_CARD: u32 = 2;

/// The kinds of creature.
#[derive(Clone, Copy, PartialEq, Eq, Debug, Structural)]
pub enum EntityKind {
    Fwog,
    DragonFly,
}

/// A card: a creature to be placed on the battlefield, or food for one that
/// is there already.
#[derive(Clone, Copy, PartialEq, Eq, Debug, Structural)]
pub enum Card {
    Entity(EntityKind),
    Food,
}

/// A creature on the battlefield, with its stats.
#[derive(Clone, Copy, PartialEq, Eq, Debug, Structural)]
pub struct Entity {
    pub kind: EntityKind,
    pub hit_points: u32,
    pub food: u32,
}

impl Entity {
    /// A creature as it enters the battlefield.
    pub open spec fn spec_new(kind: EntityKind) -> Entity {
        Entity {
            kind,
            hit_points: match kind {
                EntityKind::Fwog => FWOG_HIT_POINTS,
                EntityKind::DragonFly => DRAGON_FLY_HIT_POINTS,
            },
            food: 0,
        }
    }

    /// A creature as it enters the battlefield: the hit points of its kind,
    /// and no food.
    #[verifier::when_used_as_spec(spec_new)]
    pub fn new(kind: EntityKind) -> (e: Entity)
        ensures
            e == Entity::spec_new(kind),
    {
        let hit_points = match kind {
            EntityKind::Fwog => FWOG_HIT_POINTS,
            EntityKind::DragonFly => DRAGON_FLY_HIT_POINTS,
        };
        Entity { kind, hit_points, food: 0 }
    }

    /// The creature after one food card: its food grows by `FOOD_PER_CARD`,
    /// and stops at the largest number that can be held.
    pub open spec fn spec_fed(self) -> Entity {
        Entity {
            food: if self.food + FOOD_PER_CARD <= u32::MAX {
                (self.food + FOOD_PER_CARD) as u32
            } else {
                u32::MAX
            },
            ..self
        }
    }

    /// The creature after one food card.
    #[verifier::when_used_as_spec(spec_fed)]
    pub fn fed(self) -> (e: Entity)
        ensures
            e == self.spec_fed(),
    {
        Entity { kind: self.kind, hit_points: self.hit_points, food: self.food.saturating_add(FOOD_PER_CARD) }
    }
}

/// A card in the hand, with the visual element that shows it.
#[derive(Clone, Copy, PartialEq, Eq, Debug)]
pub struct CardInHand {
    pub card: Card,
    pub vis_elem_id: Id,
}

/// A creature on the battlefield, with the visual element that shows it.
#[derive(Clone, Copy, PartialEq, Eq, Debug)]
pub struct EntityOnBattlefield {
    pub entity: Entity,
    pub vis_elem_id: Id,
}

/// The position of something that is on the battlefield.
#[derive(Clone, Copy, PartialEq, Eq, Debug, Structural)]
pub enum BattlefieldPos {
    Friend(usize),
    Foe(usize),
}

/// Insertion position in the battlefield (in the front or back of a team or
/// between two members of a team): the position that the thing being
/// inserted will have upon insertion.
#[derive(Clone, Copy, PartialEq, Eq, Debug, Structural)]
pub struct BattlefieldInsertPos(pub BattlefieldPos);

/// Where a visual element is drawn.
#[derive(Clone, Copy, PartialEq, Eq, Debug)]
pub struct VisElemPos {
    /// More depth means closer to the background (covered by what is closer
    /// to the foreground).
    pub depth: u32,
    /// What point in the element being drawn is supposed to be drawn at `coords`?
    pub pin_point: PinPoint,
    /// Offset from the point of the parent that `in_parent_pin_point` denotes.
    pub coords: ScreenCoords,
    /// The element this one is placed in; the whole canvas when there is none.
    pub parent: Option<Id>,
    /// What point in the parent element is `coords` measured from?
    pub in_parent_pin_point: PinPoint,
}

/// What a visual element shows.
#[derive(Clone, Copy, PartialEq, Eq, Debug)]
pub enum VisElemWhat {
    /// A card in the hand, at the given index.
    Card { card: Card, where_in_hand: usize },
    /// A creature on the battlefield.
    Entity { where_on_battlefield: BattlefieldPos },
    /// A place where a creature can be inserted.
    BattlefieldInsertPos(BattlefieldInsertPos),
    /// A card on its way from the hand to the battlefield.
    FloatingCard { from_hand: usize, dst: BattlefieldInsertPos },
    /// The effect of a card on its way from the hand to a creature.
    FloatingEffect { from_hand: usize, target: BattlefieldPos },
}

impl VisElemWhat {
    /// The intrinsic extent of what is shown.
    pub open spec fn spec_dimensions(&self) -> ScreenDimensions {
        match self {
            VisElemWhat::Card { .. } => Vec2 { x: CARD_WIDTH, y: CARD_HEIGHT },
            VisElemWhat::Entity { .. } => Vec2 { x: CARD_WIDTH, y: CARD_HEIGHT },
            VisElemWhat::BattlefieldInsertPos(_) => Vec2 {
                x: INSERT_POS_WIDTH,
                y: INSERT_POS_HEIGHT,
            },
            VisElemWhat::FloatingCard { .. } => Vec2 { x: CARD_WIDTH, y: CARD_HEIGHT },
            VisElemWhat::FloatingEffect { .. } => Vec2 { x: EFFECT_WIDTH, y: EFFECT_HEIGHT },
        }
    }

    /// The intrinsic extent of what is shown.
    #[verifier::when_used_as_spec(spec_dimensions)]
    pub fn dimensions(&self) -> (dims: ScreenDimensions)
        ensures
            dims == self.spec_dimensions(),
    {
        match self {
            VisElemWhat::Card { .. } => Vec2 { x: CARD_WIDTH, y: CARD_HEIGHT },
            VisElemWhat::Entity { .. } => Vec2 { x: CARD_WIDTH, y: CARD_HEIGHT },
            VisElemWhat::BattlefieldInsertPos(_) => Vec2 {
                x: INSERT_POS_WIDTH,
                y: INSERT_POS_HEIGHT,
            },
            VisElemWhat::FloatingCard { .. } => Vec2 { x: CARD_WIDTH, y: CARD_HEIGHT },
            VisElemWhat::FloatingEffect { .. } => Vec2 { x: EFFECT_WIDTH, y: EFFECT_HEIGHT },
        }
    }
}

/// A transition in flight: how far it has come, where it leads, and what it
/// carries there.
#[derive(Clone, Copy, PartialEq, Eq, Debug)]
pub struct Animation {
    pub clock: AnimationClock,
    pub dst_pos: VisElemPos,
    /// The card that has left its collection and travels with the animation.
    pub carried: Option<Card>,
}

/// Something that is shown on the canvas.
#[derive(Clone, Copy, PartialEq, Eq, Debug)]
pub struct VisElem {
    pub pos: VisElemPos,
    /// The animation in flight, if any: there is never more than one.
    pub animation: Option<Animation>,
    pub what: VisElemWhat,
    pub selectable: bool,
    pub targetable: bool,
}

/// A card on its way from the hand to the battlefield: the visual element
/// that shows it, with the animation that carries it.
#[derive(Clone, Copy, PartialEq, Eq, Debug)]
pub struct Flight {
    pub vis_elem_id: Id,
    pub elem: VisElem,
}

impl VisElem {
    /// Starts an animation toward `dst_pos` that takes `duration` ticks. An
    /// animation that was in flight is discarded.
    pub fn move_to(&mut self, dst_pos: VisElemPos, duration: u32, carried: Option<Card>)
        requires
            duration > 0,
        ensures
            final(self).animation == Some(
                Animation { clock: AnimationClock::spec_start(duration), dst_pos, carried },
            ),
            final(self).pos == old(self).pos,
            final(self).what == old(self).what,
            final(self).selectable == old(self).selectable,
            final(self).targetable == old(self).targetable,
    {
        self.animation = Some(Animation { clock: AnimationClock::start(duration), dst_pos, carried });
    }
}

} // verus!
