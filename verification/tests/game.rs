use frog_dream::clock::Fraction;
use frog_dream::game::{Game, KeyCode, MouseButton};
use frog_dream::geometry::{Rect, Vec2};
use frog_dream::layout::TRANSFER_DURATION;
use frog_dream::model::{
    BattlefieldInsertPos, BattlefieldPos, Card, Entity, EntityKind, VisElemWhat,
};

fn fwog() -> Card {
    Card::Entity(EntityKind::Fwog)
}

fn dragon_fly() -> Card {
    Card::Entity(EntityKind::DragonFly)
}

fn friend_at(i: usize) -> BattlefieldInsertPos {
    BattlefieldInsertPos(BattlefieldPos::Friend(i))
}

fn foe_at(i: usize) -> BattlefieldInsertPos {
    BattlefieldInsertPos(BattlefieldPos::Foe(i))
}

/// Hand of two fwogs, a dragonfly and food; nobody on the battlefield.
fn four_cards() -> Game {
    let mut game = Game::empty(1200, 800);
    assert!(game.add_card_to_hand(fwog()));
    assert!(game.add_card_to_hand(fwog()));
    assert!(game.add_card_to_hand(dragon_fly()));
    assert!(game.add_card_to_hand(Card::Food));
    game
}

fn cards(game: &Game) -> Vec<Card> {
    game.hand().iter().map(|c| c.card).collect()
}

fn rects(game: &Game) -> Vec<Rect> {
    game.interface_elements().iter().map(|e| e.rect).collect()
}

fn progress(game: &Game) -> Option<Fraction> {
    game.flight().map(|f| f.elem.animation.unwrap().clock.progress())
}

fn drag(game: &mut Game, from: (i64, i64), to: (i64, i64)) {
    game.mouse_motion_event(from.0, from.1);
    game.mouse_button_down_event(MouseButton::Left);
    game.mouse_motion_event(to.0, to.1);
    game.mouse_button_up_event(MouseButton::Left);
}

#[test]
fn an_empty_game() {
    let game = Game::empty(1200, 800);
    assert_eq!(game.context_size(), Vec2::new(1200, 800));
    assert!(game.hand().is_empty());
    assert!(game.friends().is_empty());
    assert!(game.foes().is_empty());
    assert!(game.friend_insert_pos_vis_elem_ids().is_empty());
    assert_eq!(game.flight(), None);
    assert_eq!(game.cursor_pos(), None);
    assert_eq!(game.hovered_vis_elem_id(), None);
    assert_eq!(game.selected_vis_elem_id(), None);
    assert!(game.interface_elements().is_empty());
    assert!(game.draw().is_empty());
    assert!(game.has_room());
    assert!(game.can_issue(1));
    assert!(game.can_issue(u64::MAX));
    assert!(game.can_press(MouseButton::Left));
    assert!(game.can_update(1));
}

#[test]
fn the_game_opens_with_four_cards_and_a_foe() {
    let game = Game::new(1200, 800);
    assert_eq!(cards(&game), vec![fwog(), fwog(), dragon_fly(), Card::Food]);
    assert!(game.friends().is_empty());
    assert_eq!(game.foes().len(), 1);
    assert_eq!(game.foes()[0].entity, Entity::new(EntityKind::DragonFly));
    let ids: Vec<u64> = game.hand().iter().map(|c| c.vis_elem_id.raw()).collect();
    assert_eq!(ids, vec![0, 1, 2, 3]);
    assert_eq!(game.foes()[0].vis_elem_id.raw(), 4);
    assert_eq!(
        rects(&game),
        vec![
            Rect::new(170, 475, 200, 300),
            Rect::new(390, 475, 200, 300),
            Rect::new(610, 475, 200, 300),
            Rect::new(830, 475, 200, 300),
            Rect::new(530, 25, 200, 300),
        ]
    );
}

#[test]
fn creatures_start_with_the_stats_of_their_kind() {
    assert_eq!(Entity::new(EntityKind::Fwog), Entity { kind: EntityKind::Fwog, hit_points: 3, food: 0 });
    assert_eq!(
        Entity::new(EntityKind::DragonFly),
        Entity { kind: EntityKind::DragonFly, hit_points: 2, food: 0 }
    );
}

#[test]
fn food_adds_two_and_stops_at_the_top() {
    let fed = Entity::new(EntityKind::Fwog).fed();
    assert_eq!(fed, Entity { kind: EntityKind::Fwog, hit_points: 3, food: 2 });
    assert_eq!(fed.fed().food, 4);
    let full = Entity { kind: EntityKind::Fwog, hit_points: 3, food: u32::MAX - 1 };
    assert_eq!(full.fed().food, u32::MAX);
}

#[test]
fn the_visual_elements_are_in_the_store() {
    let game = Game::new(1200, 800);
    let store = game.vis_elems();
    for (i, in_hand) in game.hand().iter().enumerate() {
        let elem = store.get(in_hand.vis_elem_id).unwrap();
        assert_eq!(elem.what, VisElemWhat::Card { card: in_hand.card, where_in_hand: i });
        assert!(elem.selectable);
        assert!(!elem.targetable);
        assert_eq!(elem.animation, None);
        assert_eq!(elem.pos.parent, None);
        assert_eq!(
            game.vis_elem_actual_rect(&elem.pos, elem.what.dimensions()),
            game.interface_elements()[i].rect
        );
    }
    let foe = store.get(game.foes()[0].vis_elem_id).unwrap();
    assert_eq!(foe.what, VisElemWhat::Entity { where_on_battlefield: BattlefieldPos::Foe(0) });
    assert!(!foe.selectable);
}

#[test]
fn moving_the_cursor_hovers_what_is_under_it() {
    let mut game = Game::new(1200, 800);
    game.mouse_motion_event(200, 500);
    assert_eq!(game.cursor_pos(), Some(Vec2::new(200, 500)));
    assert_eq!(game.hovered_vis_elem_id(), Some(game.hand()[0].vis_elem_id));
    game.mouse_motion_event(600, 100);
    assert_eq!(game.hovered_vis_elem_id(), Some(game.foes()[0].vis_elem_id));
    game.mouse_motion_event(5, 5);
    assert_eq!(game.hovered_vis_elem_id(), None);
    game.mouse_motion_event(370, 775);
    assert_eq!(game.hovered_vis_elem_id(), Some(game.hand()[0].vis_elem_id));
    game.mouse_motion_event(380, 775);
    assert_eq!(game.hovered_vis_elem_id(), None);
    game.mouse_motion_event(169, 500);
    assert_eq!(game.hovered_vis_elem_id(), None);
    let flags: Vec<bool> = {
        game.mouse_motion_event(400, 500);
        game.interface_elements().iter().map(|e| e.hovered).collect()
    };
    assert_eq!(flags, vec![false, true, false, false, false]);
}

#[test]
fn playing_a_creature_card() {
    let mut game = four_cards();
    let card_elem = game.hand()[0].vis_elem_id;
    game.mouse_motion_event(200, 500);
    game.mouse_button_down_event(MouseButton::Left);
    assert_eq!(game.selected_vis_elem_id(), Some(card_elem));
    assert_eq!(game.friend_insert_pos_vis_elem_ids().len(), 1);
    let slot = game.friend_insert_pos_vis_elem_ids()[0];
    assert_eq!(slot.raw(), 4);
    let slot_elem = game.vis_elems().get(slot).unwrap();
    assert!(slot_elem.targetable);
    assert_eq!(slot_elem.what, VisElemWhat::BattlefieldInsertPos(friend_at(0)));
    assert_eq!(rects(&game)[4], Rect::new(550, 335, 40, 50));
    assert!(game.interface_elements()[0].selected);

    game.mouse_motion_event(560, 360);
    assert_eq!(game.hovered_vis_elem_id(), Some(slot));
    game.mouse_button_up_event(MouseButton::Left);

    assert_eq!(cards(&game), vec![fwog(), dragon_fly(), Card::Food]);
    assert_eq!(game.selected_vis_elem_id(), None);
    assert!(game.friend_insert_pos_vis_elem_ids().is_empty());
    assert!(!game.vis_elems().contains(slot));
    assert!(game.friends().is_empty());
    let flight = game.flight().unwrap();
    assert_eq!(flight.vis_elem_id, card_elem);
    assert_eq!(flight.elem.what, VisElemWhat::FloatingCard { from_hand: 0, dst: friend_at(0) });
    let animation = flight.elem.animation.unwrap();
    assert_eq!(animation.carried, Some(fwog()));
    assert_eq!(animation.clock.progress(), Fraction { num: 0, den: TRANSFER_DURATION });
    assert_eq!(
        game.vis_elem_actual_rect(&animation.dst_pos, Vec2::new(40, 50)),
        Rect::new(550, 335, 40, 50)
    );
    assert_eq!(game.vis_elems().get(card_elem), Some(flight.elem));

    game.update(TRANSFER_DURATION as u64 - 1);
    assert!(game.flight().is_some());
    assert!(game.friends().is_empty());
    game.update(1);
    assert_eq!(game.flight(), None);
    assert_eq!(game.friends().len(), 1);
    assert_eq!(game.friends()[0].entity, Entity { kind: EntityKind::Fwog, hit_points: 3, food: 0 });
    assert_eq!(cards(&game), vec![fwog(), dragon_fly(), Card::Food]);
    assert!(!game.vis_elems().contains(card_elem));
    let creature = game.vis_elems().get(game.friends()[0].vis_elem_id).unwrap();
    assert_eq!(creature.what, VisElemWhat::Entity { where_on_battlefield: BattlefieldPos::Friend(0) });
    assert_eq!(creature.animation, None);
}

#[test]
fn feeding_a_creature() {
    let mut game = four_cards();
    drag(&mut game, (200, 500), (560, 360));
    game.update(TRANSFER_DURATION as u64);
    assert_eq!(game.friends().len(), 1);
    assert_eq!(game.friends()[0].entity.food, 0);
    assert_eq!(cards(&game), vec![fwog(), dragon_fly(), Card::Food]);
    assert_eq!(rects(&game)[2], Rect::new(720, 475, 200, 300));
    assert_eq!(rects(&game)[3], Rect::new(470, 25, 200, 300));

    let food_elem = game.hand()[2].vis_elem_id;
    let friend_elem = game.friends()[0].vis_elem_id;
    game.mouse_motion_event(750, 500);
    game.mouse_button_down_event(MouseButton::Left);
    assert_eq!(game.selected_vis_elem_id(), Some(food_elem));
    assert!(game.friend_insert_pos_vis_elem_ids().is_empty());
    assert!(game.vis_elems().get(friend_elem).unwrap().targetable);
    game.mouse_motion_event(500, 100);
    assert_eq!(game.hovered_vis_elem_id(), Some(friend_elem));
    game.mouse_button_up_event(MouseButton::Left);

    assert_eq!(cards(&game), vec![fwog(), dragon_fly()]);
    assert!(!game.vis_elems().get(friend_elem).unwrap().targetable);
    let flight = game.flight().unwrap();
    assert_eq!(
        flight.elem.what,
        VisElemWhat::FloatingEffect { from_hand: 2, target: BattlefieldPos::Friend(0) }
    );
    assert_eq!(flight.elem.animation.unwrap().carried, Some(Card::Food));
    assert_eq!(game.friends()[0].entity.food, 0);

    game.update(TRANSFER_DURATION as u64 + 5);
    assert_eq!(game.flight(), None);
    assert_eq!(game.friends()[0].entity, Entity { kind: EntityKind::Fwog, hit_points: 3, food: 2 });
    assert_eq!(game.friends()[0].vis_elem_id, friend_elem);
    assert_eq!(cards(&game), vec![fwog(), dragon_fly()]);
    assert!(!game.vis_elems().contains(food_elem));
}

#[test]
fn food_can_be_given_to_a_foe() {
    let mut game = Game::new(1200, 800);
    drag(&mut game, (850, 500), (600, 100));
    assert_eq!(
        game.flight().unwrap().elem.what,
        VisElemWhat::FloatingEffect { from_hand: 3, target: BattlefieldPos::Foe(0) }
    );
    game.update(TRANSFER_DURATION as u64);
    assert_eq!(game.foes()[0].entity.food, 2);
    assert_eq!(game.hand().len(), 3);
}

#[test]
fn a_release_away_from_a_target_drops_the_selection() {
    let mut game = four_cards();
    game.mouse_motion_event(200, 500);
    game.mouse_button_down_event(MouseButton::Left);
    assert!(game.selected_vis_elem_id().is_some());
    game.mouse_motion_event(5, 5);
    game.mouse_button_up_event(MouseButton::Left);
    assert_eq!(game.selected_vis_elem_id(), None);
    assert!(game.friend_insert_pos_vis_elem_ids().is_empty());
    assert_eq!(game.flight(), None);
    assert_eq!(game.hand().len(), 4);
    assert_eq!(game.interface_elements().len(), 4);
}

#[test]
fn a_creature_card_is_not_played_on_a_creature_nor_food_on_a_card() {
    let mut game = Game::new(1200, 800);
    drag(&mut game, (200, 500), (600, 100));
    assert_eq!(game.flight(), None);
    assert_eq!(game.hand().len(), 4);
    drag(&mut game, (850, 500), (200, 500));
    assert_eq!(game.flight(), None);
    assert_eq!(game.hand().len(), 4);
    assert_eq!(game.foes()[0].entity.food, 0);
}

#[test]
fn only_the_left_button_selects_and_releases() {
    let mut game = four_cards();
    game.mouse_motion_event(200, 500);
    for button in [MouseButton::Right, MouseButton::Middle, MouseButton::Other(7)] {
        game.mouse_button_down_event(button);
        assert_eq!(game.selected_vis_elem_id(), None);
    }
    game.mouse_button_down_event(MouseButton::Left);
    game.mouse_motion_event(560, 360);
    for button in [MouseButton::Right, MouseButton::Middle, MouseButton::Other(7)] {
        game.mouse_button_up_event(button);
        assert!(game.selected_vis_elem_id().is_some());
        assert_eq!(game.flight(), None);
    }
}

#[test]
fn a_press_over_nothing_or_over_a_creature_selects_nothing() {
    let mut game = Game::new(1200, 800);
    game.mouse_button_down_event(MouseButton::Left);
    assert_eq!(game.selected_vis_elem_id(), None);
    game.mouse_motion_event(5, 5);
    game.mouse_button_down_event(MouseButton::Left);
    assert_eq!(game.selected_vis_elem_id(), None);
    game.mouse_motion_event(600, 100);
    game.mouse_button_down_event(MouseButton::Left);
    assert_eq!(game.selected_vis_elem_id(), None);
}

#[test]
fn a_second_press_keeps_the_selection() {
    let mut game = four_cards();
    game.mouse_motion_event(200, 500);
    game.mouse_button_down_event(MouseButton::Left);
    let selected = game.selected_vis_elem_id();
    let slots = game.friend_insert_pos_vis_elem_ids().clone();
    game.mouse_motion_event(400, 500);
    game.mouse_button_down_event(MouseButton::Left);
    assert_eq!(game.selected_vis_elem_id(), selected);
    assert_eq!(*game.friend_insert_pos_vis_elem_ids(), slots);
}

#[test]
fn buttons_are_ignored_while_a_card_is_in_flight() {
    let mut game = four_cards();
    drag(&mut game, (200, 500), (560, 360));
    game.update(TRANSFER_DURATION as u64 / 2);
    assert!(game.flight().is_some());
    game.mouse_motion_event(500, 600);
    let hovered = game.hovered_vis_elem_id();
    assert!(hovered.is_some());
    let hand = cards(&game);
    let flight = game.flight();
    let elements = game.interface_elements();
    game.mouse_button_down_event(MouseButton::Left);
    assert_eq!(game.selected_vis_elem_id(), None);
    assert_eq!(game.hovered_vis_elem_id(), hovered);
    game.mouse_button_up_event(MouseButton::Left);
    assert_eq!(game.selected_vis_elem_id(), None);
    assert_eq!(game.hovered_vis_elem_id(), hovered);
    assert_eq!(cards(&game), hand);
    assert!(game.friends().is_empty());
    assert_eq!(game.flight(), flight);
    assert_eq!(game.interface_elements(), elements);
    assert!(game.friend_insert_pos_vis_elem_ids().is_empty());
}

#[test]
fn there_is_never_more_than_one_animation() {
    let mut game = Game::new(1200, 800);
    let animated = |game: &Game| {
        let mut n = 0;
        for e in game.interface_elements() {
            if game.vis_elems().get(e.what).unwrap().animation.is_some() {
                n += 1;
            }
        }
        n
    };
    assert_eq!(animated(&game), 0);
    drag(&mut game, (200, 500), (450, 360));
    assert_eq!(animated(&game), 1);
    drag(&mut game, (500, 500), (450, 360));
    game.update(1000);
    assert_eq!(animated(&game), 1);
    assert_eq!(game.hand().len(), 3);
    game.update(TRANSFER_DURATION as u64);
    assert_eq!(animated(&game), 0);
    drag(&mut game, (750, 500), (400, 100));
    assert_eq!(animated(&game), 1);
    game.update(TRANSFER_DURATION as u64);
    assert_eq!(animated(&game), 0);
    assert_eq!(game.friends()[0].entity.food, 2);
}

#[test]
fn a_resize_keeps_the_progress_and_moves_the_rectangles() {
    let mut game = four_cards();
    drag(&mut game, (200, 500), (560, 360));
    game.update(200_000);
    assert_eq!(progress(&game), Some(Fraction { num: 200_000, den: 500_000 }));
    let before = rects(&game);
    let flight = game.flight();
    game.resize_event(1000, 600);
    assert_eq!(progress(&game), Some(Fraction { num: 200_000, den: 500_000 }));
    assert_eq!(game.flight(), flight);
    assert_eq!(game.context_size(), Vec2::new(1000, 600));
    let after = rects(&game);
    assert_eq!(after.len(), before.len());
    for (a, b) in after.iter().zip(before.iter()) {
        assert_eq!((a.x, a.y, a.w, a.h), (b.x - 100, b.y - 100, b.w, b.h));
    }
    game.update(300_000);
    assert_eq!(game.flight(), None);
    assert_eq!(game.friends().len(), 1);
}

#[test]
fn a_resize_hovers_what_has_come_under_the_cursor() {
    let mut game = Game::new(1200, 800);
    game.mouse_motion_event(100, 500);
    assert_eq!(game.hovered_vis_elem_id(), None);
    game.resize_event(1000, 800);
    assert_eq!(game.hovered_vis_elem_id(), Some(game.hand()[0].vis_elem_id));
}

#[test]
fn the_rows_reflow_while_a_card_is_in_flight() {
    let mut game = Game::empty(1200, 800);
    for _ in 0..3 {
        assert!(game.add_card_to_hand(fwog()));
    }
    assert!(game.spawn_entity_on_battlefield(EntityKind::Fwog, friend_at(0)));
    assert!(game.spawn_entity_on_battlefield(EntityKind::DragonFly, foe_at(0)));
    assert_eq!(
        rects(&game),
        vec![
            Rect::new(280, 475, 200, 300),
            Rect::new(500, 475, 200, 300),
            Rect::new(720, 475, 200, 300),
            Rect::new(360, 25, 200, 300),
            Rect::new(640, 25, 200, 300),
        ]
    );
    game.mouse_motion_event(500, 500);
    game.mouse_button_down_event(MouseButton::Left);
    assert_eq!(game.friend_insert_pos_vis_elem_ids().len(), 2);
    assert_eq!(rects(&game)[5], Rect::new(330, 335, 40, 50));
    assert_eq!(rects(&game)[6], Rect::new(550, 335, 40, 50));
    game.mouse_motion_event(330, 340);
    game.mouse_button_up_event(MouseButton::Left);

    // At the start nothing has moved; the card floats where it lay.
    let at_start = rects(&game);
    assert_eq!(
        at_start,
        vec![
            Rect::new(280, 475, 200, 300),
            Rect::new(720, 475, 200, 300),
            Rect::new(360, 25, 200, 300),
            Rect::new(640, 25, 200, 300),
            Rect::new(500, 475, 200, 300),
        ]
    );
    game.update(250_000);
    assert_eq!(
        rects(&game),
        vec![
            Rect::new(600 - 275 + 10, 475, 200, 300),
            Rect::new(600 - 275 + 10 + 220 + 110, 475, 200, 300),
            Rect::new(600 - 275 + 10 - 30 + 110, 25, 200, 300),
            Rect::new(600 - 275 + 10 + 30 + 220 + 110, 25, 200, 300),
            Rect::new(375, 342, 200, 300),
        ]
    );
    game.update(249_999);
    game.update(1);
    // At the end the rows are the rows at rest of their new lengths.
    assert_eq!(
        rects(&game),
        vec![
            Rect::new(390, 475, 200, 300),
            Rect::new(610, 475, 200, 300),
            Rect::new(250, 25, 200, 300),
            Rect::new(470, 25, 200, 300),
            Rect::new(750, 25, 200, 300),
        ]
    );
    assert_eq!(game.friends()[0].entity.kind, EntityKind::Fwog);
    assert_eq!(game.friends().len(), 2);
}

#[test]
fn time_changes_nothing_without_a_card_in_flight() {
    let mut game = Game::new(1200, 800);
    game.mouse_motion_event(200, 500);
    let elements = game.interface_elements();
    game.update(123_456);
    assert_eq!(game.interface_elements(), elements);
    assert_eq!(game.flight(), None);
}

#[test]
fn cards_and_creatures_enter_only_a_game_at_rest() {
    let mut game = four_cards();
    game.mouse_motion_event(200, 500);
    game.mouse_button_down_event(MouseButton::Left);
    assert!(!game.has_room());
    assert!(!game.add_card_to_hand(Card::Food));
    assert!(!game.spawn_entity_on_battlefield(EntityKind::Fwog, friend_at(0)));
    game.mouse_motion_event(560, 360);
    game.mouse_button_up_event(MouseButton::Left);
    assert!(!game.add_card_to_hand(Card::Food));
    assert!(!game.spawn_entity_on_battlefield(EntityKind::Fwog, foe_at(0)));
    assert_eq!(game.hand().len(), 3);
    game.update(TRANSFER_DURATION as u64);
    assert!(game.add_card_to_hand(Card::Food));
    assert_eq!(game.hand().len(), 4);
}

#[test]
fn a_creature_is_put_where_it_is_asked_for() {
    let mut game = Game::empty(1200, 800);
    assert!(!game.spawn_entity_on_battlefield(EntityKind::Fwog, friend_at(1)));
    assert!(game.spawn_entity_on_battlefield(EntityKind::Fwog, friend_at(0)));
    assert!(game.spawn_entity_on_battlefield(EntityKind::DragonFly, friend_at(0)));
    assert!(game.spawn_entity_on_battlefield(EntityKind::DragonFly, friend_at(2)));
    assert!(!game.spawn_entity_on_battlefield(EntityKind::Fwog, foe_at(1)));
    assert!(game.spawn_entity_on_battlefield(EntityKind::Fwog, foe_at(0)));
    let kinds: Vec<EntityKind> = game.friends().iter().map(|e| e.entity.kind).collect();
    assert_eq!(kinds, vec![EntityKind::DragonFly, EntityKind::Fwog, EntityKind::DragonFly]);
    let ids: Vec<u64> = game.friends().iter().map(|e| e.vis_elem_id.raw()).collect();
    assert_eq!(ids, vec![1, 0, 2]);
    assert_eq!(game.foes()[0].vis_elem_id.raw(), 3);
    for (i, friend) in game.friends().iter().enumerate() {
        assert_eq!(
            game.vis_elems().get(friend.vis_elem_id).unwrap().what,
            VisElemWhat::Entity { where_on_battlefield: BattlefieldPos::Friend(i) }
        );
    }
}

#[test]
fn the_escape_key_leaves_the_game() {
    let game = Game::new(1200, 800);
    assert!(game.key_down_event(Some(KeyCode::Escape), false));
    assert!(!game.key_down_event(Some(KeyCode::Escape), true));
    assert!(!game.key_down_event(Some(KeyCode::Space), false));
    assert!(!game.key_down_event(Some(KeyCode::Other), false));
    assert!(!game.key_down_event(None, false));
}

#[test]
fn the_layout_passes_put_each_element_in_its_row() {
    let mut game = Game::empty(1200, 800);
    for _ in 0..3 {
        assert!(game.add_card_to_hand(fwog()));
    }
    assert!(game.spawn_entity_on_battlefield(EntityKind::Fwog, friend_at(0)));
    assert!(game.spawn_entity_on_battlefield(EntityKind::Fwog, friend_at(1)));
    assert!(game.spawn_entity_on_battlefield(EntityKind::DragonFly, foe_at(0)));
    let elements = game.interface_elements();
    game.update_pos_of_cards_in_hand();
    game.update_pos_of_entities_in_battlefield();
    assert_eq!(game.interface_elements(), elements);

    let middle = |game: &Game, id| {
        let elem = game.vis_elems().get(id).unwrap();
        game.vis_elem_actual_rect(&elem.pos, elem.what.dimensions()).center()
    };
    let n = game.hand().len() as i64;
    let mut sum = 0;
    for (i, in_hand) in game.hand().iter().enumerate() {
        let at = middle(&game, in_hand.vis_elem_id);
        assert_eq!(at, Vec2::new(600 - 110 * (n - 1) + 220 * i as i64, 400 + 225));
        sum += at.x - 600;
    }
    assert_eq!(sum, 0);
    // Two friends, the room between the teams, and a foe: 220 + 220 + 60 + 200 wide.
    let friends: Vec<i64> = game.friends().iter().map(|e| middle(&game, e.vis_elem_id).x).collect();
    let foes: Vec<i64> = game.foes().iter().map(|e| middle(&game, e.vis_elem_id).x).collect();
    assert_eq!(friends, vec![600 - 250, 600 - 30]);
    assert_eq!(foes, vec![600 + 250]);
    assert_eq!(middle(&game, game.friends()[0].vis_elem_id).y, 400 - 225);
}

#[test]
fn the_insertion_positions_stand_in_the_gaps() {
    let mut game = Game::empty(1200, 800);
    assert!(game.add_card_to_hand(fwog()));
    assert!(game.spawn_entity_on_battlefield(EntityKind::Fwog, friend_at(0)));
    assert!(game.spawn_entity_on_battlefield(EntityKind::Fwog, friend_at(1)));
    game.mouse_motion_event(600, 600);
    assert!(game.can_press(MouseButton::Left));
    game.mouse_button_down_event(MouseButton::Left);
    let friends: Vec<Rect> = rects(&game)[1..3].to_vec();
    let slots: Vec<Rect> = rects(&game)[3..].to_vec();
    assert_eq!(friends, vec![Rect::new(360, 25, 200, 300), Rect::new(580, 25, 200, 300)]);
    assert_eq!(
        slots,
        vec![
            Rect::new(330, 335, 40, 50),
            Rect::new(550, 335, 40, 50),
            Rect::new(770, 335, 40, 50),
        ]
    );
    for (slot, friend) in slots.iter().zip(friends.iter()) {
        assert_eq!(slot.center().x, friend.x - 10);
    }
    assert_eq!(slots[2].center().x, friends[1].x + 200 + 10);
    game.update_pos_of_entities_in_battlefield();
    assert_eq!(rects(&game)[3..].to_vec(), slots);
}

#[test]
fn there_are_handles_for_every_event_of_a_young_game() {
    let mut game = four_cards();
    assert!(game.can_issue(u64::MAX - 4));
    assert!(!game.can_issue(u64::MAX - 3));
    for button in [MouseButton::Left, MouseButton::Right] {
        assert!(game.can_press(button));
    }
    game.mouse_motion_event(200, 500);
    assert!(game.can_press(MouseButton::Left));
    drag(&mut game, (200, 500), (560, 360));
    assert!(game.can_press(MouseButton::Left));
    assert!(game.can_update(1));
    assert!(game.can_update(u64::MAX));
}
