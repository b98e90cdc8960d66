//! What the renderer is asked to draw for one visual element.

use vstd::prelude::*;
use crate::geometry::{Rect, ScreenCoords, Vec2};
use crate::interface::InterfaceElement;
use crate::model::{Card, Entity};

verus! {

/// Thickness of the outline of an element.
pub const STROKE_THICKNESS: u32 = 10;

/// Thickness of the outline that marks the selected element.
pub const SELECTION_THICKNESS: u32 = 14;

/// Thickness of the outline of the mark of an insertion position.
pub const INSERT_POS_THICKNESS: u32 = 3;

/// Thickness of the line from the selected card to the cursor.
pub const LINE_THICKNESS: u32 = 12;

/// Distance of what is drawn on a card from the left and the top of the card.
pub const FACE_INSET: i64 = 12;

/// Distance of the picture of a card from the top of the card.
pub const SPRITE_TOP: i64 = 48;

/// Distance of the stats of a creature from the bottom of its card.
pub const STATS_RISE: i64 = 40;

/// Distance of the food of a creature from the right of its card.
pub const FOOD_INSET: i64 = 80;

/// Distance between the food icon and the number beside it.
pub const FOOD_COUNT_SHIFT: i64 = 36;

/// The farthest from the origin that a rectangle can lie to be drawn.
pub const DRAW_REACH: i64 = 0x1000_0000_0000_0000;

/// The colours of the outlines, by what they say.
#[derive(Clone, Copy, PartialEq, Eq, Debug, Structural)]
pub enum Tint {
    Neutral,
    /// A target of the selected card.
    TargetCue,
    /// Under the cursor.
    Highlight,
    /// A target of the selected card, under the cursor.
    AccentHighlight,
    /// The selected card.
    Selection,
}

/// What a visual element shows, with what is drawn of it.
#[derive(Clone, Copy, PartialEq, Eq, Debug)]
pub enum Face {
    Card(Card),
    Entity(Entity),
    InsertPos,
    FloatingCard(Card),
    FloatingEffect,
}

/// One request to the renderer.
#[derive(Clone, Copy, PartialEq, Eq, Debug)]
pub enum DrawCommand {
    /// The outline of a rectangle.
    StrokeRect { rect: Rect, tint: Tint, thickness: u32 },
    /// The name of a card, with its top-left corner at `at`.
    CardLabel { at: ScreenCoords, card: Card },
    /// The picture of a card, with its top-left corner at `at`.
    CardSprite { at: ScreenCoords, card: Card },
    /// The hit points of a creature.
    HitPoints { at: ScreenCoords, hit_points: u32 },
    /// The picture of food.
    FoodIcon { at: ScreenCoords },
    /// The food that a creature has.
    FoodCount { at: ScreenCoords, food: u32 },
    /// The outline of a triangle.
    Triangle {
        apex: ScreenCoords,
        left: ScreenCoords,
        right: ScreenCoords,
        tint: Tint,
        thickness: u32,
    },
    /// A line.
    Line { from: ScreenCoords, to: ScreenCoords, tint: Tint, thickness: u32 },
}

/// The colour of the outline of an element: a target under the cursor is
/// accented, anything else under the cursor is highlighted, a target
/// elsewhere gets the target cue, and the rest is neutral.
pub open spec fn spec_stroke_tint(hovered: bool, targetable: bool) -> Tint {
    if hovered && targetable {
        Tint::AccentHighlight
    } else if hovered {
        Tint::Highlight
    } else if targetable {
        Tint::TargetCue
    } else {
        Tint::Neutral
    }
}

/// The colour of the outline of an element.
#[verifier::when_used_as_spec(spec_stroke_tint)]
pub fn stroke_tint(hovered: bool, targetable: bool) -> (tint: Tint)
    ensures
        tint == spec_stroke_tint(hovered, targetable),
{
    if hovered && targetable {
        Tint::AccentHighlight
    } else if hovered {
        Tint::Highlight
    } else if targetable {
        Tint::TargetCue
    } else {
        Tint::Neutral
    }
}

/// Whether a rectangle lies where it can be drawn.
pub open spec fn drawable(rect: Rect) -> bool {
    &&& -DRAW_REACH <= rect.x <= DRAW_REACH
    &&& -DRAW_REACH <= rect.y <= DRAW_REACH
    &&& 0 <= rect.w <= DRAW_REACH
    &&& 0 <= rect.h <= DRAW_REACH
}

/// The point at the given distance from the top-left corner of a rectangle.
pub open spec fn spec_inset(rect: Rect, dx: int, dy: int) -> ScreenCoords {
    Vec2 { x: (rect.x + dx) as i64, y: (rect.y + dy) as i64 }
}

/// The outline of an element, and on top of it, where the element is
/// selected, a thicker outline in the colour of the selection.
pub open spec fn spec_outline(e: InterfaceElement) -> Seq<DrawCommand> {
    let stroke = seq![
        DrawCommand::StrokeRect {
            rect: e.rect,
            tint: spec_stroke_tint(e.hovered, e.targetable),
            thickness: STROKE_THICKNESS,
        },
    ];
    if e.selected {
        stroke.push(
            DrawCommand::StrokeRect {
                rect: e.rect,
                tint: Tint::Selection,
                thickness: SELECTION_THICKNESS,
            },
        )
    } else {
        stroke
    }
}

/// The name and the picture of a card, at their places on the card.
pub open spec fn spec_card_face(rect: Rect, card: Card) -> Seq<DrawCommand> {
    seq![
        DrawCommand::CardLabel { at: spec_inset(rect, FACE_INSET as int, FACE_INSET as int), card },
        DrawCommand::CardSprite { at: spec_inset(rect, FACE_INSET as int, SPRITE_TOP as int), card },
    ]
}

/// The stats of a creature: its hit points, and its food where it has any.
pub open spec fn spec_stats(rect: Rect, entity: Entity) -> Seq<DrawCommand> {
    let hit_points = seq![
        DrawCommand::HitPoints {
            at: spec_inset(rect, FACE_INSET as int, rect.h - STATS_RISE),
            hit_points: entity.hit_points,
        },
    ];
    if entity.food > 0 {
        hit_points.push(
            DrawCommand::FoodIcon { at: spec_inset(rect, rect.w - FOOD_INSET, rect.h - STATS_RISE) },
        ).push(
            DrawCommand::FoodCount {
                at: spec_inset(rect, rect.w - FOOD_INSET + FOOD_COUNT_SHIFT, rect.h - STATS_RISE),
                food: entity.food,
            },
        )
    } else {
        hit_points
    }
}

/// The mark of an insertion position: a triangle with its apex up, accented
/// under the cursor.
pub open spec fn spec_insert_pos_mark(e: InterfaceElement) -> Seq<DrawCommand> {
    seq![
        DrawCommand::Triangle {
            apex: spec_inset(e.rect, e.rect.w / 2, 0),
            left: spec_inset(e.rect, 0, e.rect.h as int),
            right: spec_inset(e.rect, e.rect.w as int, e.rect.h as int),
            tint: if e.hovered {
                Tint::AccentHighlight
            } else {
                Tint::TargetCue
            },
            thickness: INSERT_POS_THICKNESS,
        },
    ]
}

/// What is drawn for one element, in the order in which it is drawn.
pub open spec fn spec_element_commands(e: InterfaceElement, face: Face) -> Seq<DrawCommand> {
    match face {
        Face::Card(card) => spec_outline(e) + spec_card_face(e.rect, card),
        Face::Entity(entity) => spec_outline(e) + spec_card_face(e.rect, Card::Entity(entity.kind))
            + spec_stats(e.rect, entity),
        Face::InsertPos => spec_insert_pos_mark(e),
        Face::FloatingCard(card) => spec_outline(e) + spec_card_face(e.rect, card),
        Face::FloatingEffect => seq![DrawCommand::FoodIcon { at: spec_inset(e.rect, 0, 0) }],
    }
}

/// The point at the given distance from the top-left corner of a rectangle.
fn inset(rect: &Rect, dx: i64, dy: i64) -> (p: ScreenCoords)
    requires
        drawable(*rect),
        -DRAW_REACH <= dx <= DRAW_REACH,
        -DRAW_REACH <= dy <= DRAW_REACH,
    ensures
        p == spec_inset(*rect, dx as int, dy as int),
{
    Vec2 { x: rect.x + dx, y: rect.y + dy }
}

/// Adds the outline of an element to what is drawn.
fn push_outline(cmds: &mut Vec<DrawCommand>, e: &InterfaceElement)
    ensures
        final(cmds)@ == old(cmds)@ + spec_outline(*e),
{
    cmds.push(
        DrawCommand::StrokeRect {
            rect: e.rect,
            tint: stroke_tint(e.hovered, e.targetable),
            thickness: STROKE_THICKNESS,
        },
    );
    if e.selected {
        cmds.push(
            DrawCommand::StrokeRect {
                rect: e.rect,
                tint: Tint::Selection,
                thickness: SELECTION_THICKNESS,
            },
        );
    }
    assert(cmds@ =~= old(cmds)@ + spec_outline(*e));
}

/// Adds the name and the picture of a card to what is drawn.
fn push_card_face(cmds: &mut Vec<DrawCommand>, rect: &Rect, card: Card)
    requires
        drawable(*rect),
    ensures
        final(cmds)@ == old(cmds)@ + spec_card_face(*rect, card),
{
    cmds.push(DrawCommand::CardLabel { at: inset(rect, FACE_INSET, FACE_INSET), card });
    cmds.push(DrawCommand::CardSprite { at: inset(rect, FACE_INSET, SPRITE_TOP), card });
    assert(cmds@ =~= old(cmds)@ + spec_card_face(*rect, card));
}

/// Adds the stats of a creature to what is drawn.
fn push_stats(cmds: &mut Vec<DrawCommand>, rect: &Rect, entity: Entity)
    requires
        drawable(*rect),
    ensures
        final(cmds)@ == old(cmds)@ + spec_stats(*rect, entity),
{
    cmds.push(
        DrawCommand::HitPoints {
            at: inset(rect, FACE_INSET, rect.h - STATS_RISE),
            hit_points: entity.hit_points,
        },
    );
    if entity.food > 0 {
        cmds.push(
            DrawCommand::FoodIcon { at: inset(rect, rect.w - FOOD_INSET, rect.h - STATS_RISE) },
        );
        cmds.push(
            DrawCommand::FoodCount {
                at: inset(rect, rect.w - FOOD_INSET + FOOD_COUNT_SHIFT, rect.h - STATS_RISE),
                food: entity.food,
            },
        );
    }
    assert(cmds@ =~= old(cmds)@ + spec_stats(*rect, entity));
}

/// What is drawn for one element, in the order in which it is drawn: the
/// outline, then the face of the card, then the stats of a creature; for an
/// insertion position its mark alone, and for a floating effect its icon.
pub fn element_commands(e: &InterfaceElement, face: Face) -> (cmds: Vec<DrawCommand>)
    requires
        drawable(e.rect),
    ensures
        cmds@ == spec_element_commands(*e, face),
{
    let mut cmds: Vec<DrawCommand> = Vec::new();
    match face {
        Face::Card(card) => {
            push_outline(&mut cmds, e);
            push_card_face(&mut cmds, &e.rect, card);
        },
        Face::Entity(entity) => {
            push_outline(&mut cmds, e);
            push_card_face(&mut cmds, &e.rect, Card::Entity(entity.kind));
            push_stats(&mut cmds, &e.rect, entity);
        },
        Face::InsertPos => {
            cmds.push(
                DrawCommand::Triangle {
                    apex: inset(&e.rect, e.rect.w / 2, 0),
                    left: inset(&e.rect, 0, e.rect.h),
                    right: inset(&e.rect, e.rect.w, e.rect.h),
                    tint: if e.hovered {
                        Tint::AccentHighlight
                    } else {
                        Tint::TargetCue
                    },
                    thickness: INSERT_POS_THICKNESS,
                },
            );
        },
        Face::FloatingCard(card) => {
            push_outline(&mut cmds, e);
            push_card_face(&mut cmds, &e.rect, card);
        },
        Face::FloatingEffect => {
            cmds.push(DrawCommand::FoodIcon { at: inset(&e.rect, 0, 0) });
        },
    }
    assert(cmds@ =~= spec_element_commands(*e, face));
    cmds
}

} // verus!
