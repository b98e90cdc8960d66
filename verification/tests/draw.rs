use frog_dream::draw::{
    element_commands, stroke_tint, DrawCommand, Face, Tint,
};
use frog_dream::game::{Game, MouseButton};
use frog_dream::geometry::{Rect, Vec2};
use frog_dream::id_generator::IdGenerator;
use frog_dream::interface::InterfaceElement;
use frog_dream::layout::TRANSFER_DURATION;
use frog_dream::model::{Card, Entity, EntityKind};

fn element(hovered: bool, selected: bool, targetable: bool) -> InterfaceElement {
    InterfaceElement {
        rect: Rect::new(100, 200, 200, 300),
        depth: 1000,
        hovered,
        selected,
        targetable,
        what: IdGenerator::new().generate_id(),
    }
}

fn stroke(tint: Tint) -> DrawCommand {
    DrawCommand::StrokeRect { rect: Rect::new(100, 200, 200, 300), tint, thickness: 10 }
}

#[test]
fn the_outline_goes_by_hover_and_target() {
    assert_eq!(stroke_tint(true, true), Tint::AccentHighlight);
    assert_eq!(stroke_tint(true, false), Tint::Highlight);
    assert_eq!(stroke_tint(false, true), Tint::TargetCue);
    assert_eq!(stroke_tint(false, false), Tint::Neutral);
}

#[test]
fn a_card_is_drawn_with_its_outline_name_and_picture() {
    let card = Card::Entity(EntityKind::Fwog);
    assert_eq!(
        element_commands(&element(false, false, false), Face::Card(card)),
        vec![
            stroke(Tint::Neutral),
            DrawCommand::CardLabel { at: Vec2::new(112, 212), card },
            DrawCommand::CardSprite { at: Vec2::new(112, 248), card },
        ]
    );
    assert_eq!(element_commands(&element(true, false, false), Face::Card(card))[0], stroke(Tint::Highlight));
}

#[test]
fn a_selected_card_gets_a_second_outline_on_top() {
    let cmds = element_commands(&element(true, true, false), Face::Card(Card::Food));
    assert_eq!(cmds.len(), 4);
    assert_eq!(cmds[0], stroke(Tint::Highlight));
    assert_eq!(
        cmds[1],
        DrawCommand::StrokeRect {
            rect: Rect::new(100, 200, 200, 300),
            tint: Tint::Selection,
            thickness: 14
        }
    );
}

#[test]
fn a_creature_is_drawn_with_its_stats() {
    let hungry = Entity::new(EntityKind::DragonFly);
    let card = Card::Entity(EntityKind::DragonFly);
    assert_eq!(
        element_commands(&element(false, false, true), Face::Entity(hungry)),
        vec![
            stroke(Tint::TargetCue),
            DrawCommand::CardLabel { at: Vec2::new(112, 212), card },
            DrawCommand::CardSprite { at: Vec2::new(112, 248), card },
            DrawCommand::HitPoints { at: Vec2::new(112, 460), hit_points: 2 },
        ]
    );
    let fed = hungry.fed();
    let cmds = element_commands(&element(true, false, true), Face::Entity(fed));
    assert_eq!(cmds.len(), 6);
    assert_eq!(cmds[0], stroke(Tint::AccentHighlight));
    assert_eq!(cmds[4], DrawCommand::FoodIcon { at: Vec2::new(220, 460) });
    assert_eq!(cmds[5], DrawCommand::FoodCount { at: Vec2::new(256, 460), food: 2 });
}

#[test]
fn an_insertion_position_is_drawn_as_a_triangle() {
    let mut e = element(false, false, true);
    e.rect = Rect::new(540, 335, 40, 50);
    assert_eq!(
        element_commands(&e, Face::InsertPos),
        vec![DrawCommand::Triangle {
            apex: Vec2::new(560, 335),
            left: Vec2::new(540, 385),
            right: Vec2::new(580, 385),
            tint: Tint::TargetCue,
            thickness: 3,
        }]
    );
    e.hovered = true;
    match element_commands(&e, Face::InsertPos)[0] {
        DrawCommand::Triangle { tint, .. } => assert_eq!(tint, Tint::AccentHighlight),
        _ => panic!("an insertion position is drawn as a triangle"),
    }
}

#[test]
fn what_floats_is_drawn_where_it_is() {
    let card = Card::Entity(EntityKind::Fwog);
    assert_eq!(
        element_commands(&element(false, false, false), Face::FloatingCard(card)),
        vec![
            stroke(Tint::Neutral),
            DrawCommand::CardLabel { at: Vec2::new(112, 212), card },
            DrawCommand::CardSprite { at: Vec2::new(112, 248), card },
        ]
    );
    assert_eq!(
        element_commands(&element(false, false, false), Face::FloatingEffect),
        vec![DrawCommand::FoodIcon { at: Vec2::new(100, 200) }]
    );
}

#[test]
fn the_frame_is_drawn_from_the_back_to_the_front() {
    let mut game = Game::new(1200, 800);
    game.mouse_motion_event(200, 500);
    game.mouse_button_down_event(MouseButton::Left);
    let order = game.draw_order();
    let drawn: Vec<u64> = order.iter().map(|e| e.what.raw()).collect();
    assert_eq!(drawn, vec![4, 3, 2, 1, 0, 5]);
    let mut expected = Vec::new();
    for e in &order {
        expected.extend(game.draw_vis_elem(e));
    }
    expected.push(DrawCommand::Line {
        from: Vec2::new(270, 625),
        to: Vec2::new(200, 500),
        tint: Tint::Selection,
        thickness: 12,
    });
    let frame = game.draw();
    assert_eq!(frame, expected);
    assert_eq!(frame.len(), 4 + 3 + 3 + 3 + 4 + 1 + 1);
    assert_eq!(
        frame[0],
        DrawCommand::StrokeRect { rect: Rect::new(530, 25, 200, 300), tint: Tint::Neutral, thickness: 10 }
    );
    match frame[frame.len() - 2] {
        DrawCommand::Triangle { tint, .. } => assert_eq!(tint, Tint::TargetCue),
        _ => panic!("the insertion position is drawn last"),
    }
}

#[test]
fn a_card_in_flight_is_drawn_on_its_way() {
    let mut game = Game::new(1200, 800);
    game.mouse_motion_event(200, 500);
    game.mouse_button_down_event(MouseButton::Left);
    game.mouse_motion_event(450, 360);
    game.mouse_button_up_event(MouseButton::Left);
    game.update(TRANSFER_DURATION as u64 / 2);
    game.mouse_motion_event(5, 5);
    let order = game.draw_order();
    let floating = order.last().unwrap();
    assert_eq!(floating.rect, Rect::new(265, 342, 200, 300));
    assert_eq!(floating.depth, 800);
    assert_eq!(floating.what.raw(), 0);
    let cmds = game.draw_vis_elem(floating);
    let card = Card::Entity(EntityKind::Fwog);
    assert_eq!(
        cmds,
        vec![
            DrawCommand::StrokeRect { rect: floating.rect, tint: Tint::Neutral, thickness: 10 },
            DrawCommand::CardLabel { at: Vec2::new(floating.rect.x + 12, floating.rect.y + 12), card },
            DrawCommand::CardSprite { at: Vec2::new(floating.rect.x + 12, floating.rect.y + 48), card },
        ]
    );
    let frame = game.draw();
    assert_eq!(frame[frame.len() - 3..], cmds[..]);
}
