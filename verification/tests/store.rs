use frog_dream::geometry::{Rect, Vec2};
use frog_dream::id_generator::{Id, IdGenerator};
use frog_dream::model::{
    BattlefieldInsertPos, BattlefieldPos, Card, EntityKind, VisElem, VisElemPos, VisElemWhat,
};
use frog_dream::pin_point::PinPoint;
use frog_dream::store::Store;

fn pos(pin_point: PinPoint, x: i64, y: i64, parent: Option<Id>, in_parent: PinPoint) -> VisElemPos {
    VisElemPos {
        depth: 1000,
        pin_point,
        coords: Vec2::new(x, y),
        parent,
        in_parent_pin_point: in_parent,
    }
}

fn card(pos: VisElemPos) -> VisElem {
    VisElem {
        pos,
        animation: None,
        what: VisElemWhat::Card { card: Card::Entity(EntityKind::Fwog), where_in_hand: 0 },
        selectable: true,
        targetable: false,
    }
}

fn marker(pos: VisElemPos) -> VisElem {
    VisElem {
        pos,
        animation: None,
        what: VisElemWhat::BattlefieldInsertPos(BattlefieldInsertPos(BattlefieldPos::Friend(0))),
        selectable: false,
        targetable: false,
    }
}

fn root(x: i64, y: i64) -> VisElemPos {
    pos(PinPoint::top_left(), x, y, None, PinPoint::top_left())
}

fn canvas() -> Vec2 {
    Vec2::new(1000, 800)
}

#[test]
fn a_store_holds_what_is_inserted() {
    let mut ids = IdGenerator::new();
    let mut store = Store::new();
    let a = ids.generate_id();
    let b = ids.generate_id();
    assert!(!store.contains(a));
    assert_eq!(store.get(a), None);
    assert!(store.insert(a, card(root(1, 2))));
    assert!(store.contains(a));
    assert!(!store.contains(b));
    assert_eq!(store.get(a), Some(card(root(1, 2))));
    assert!(store.is_known(a));
    assert!(!store.is_known(b));
}

#[test]
fn a_handle_is_inserted_once() {
    let mut ids = IdGenerator::new();
    let mut store = Store::new();
    let a = ids.generate_id();
    let b = ids.generate_id();
    assert!(store.insert(b, card(root(0, 0))));
    assert!(!store.insert(b, card(root(5, 5))));
    assert_eq!(store.get(b), Some(card(root(0, 0))));
    assert!(!store.insert(a, card(root(0, 0))));
    assert!(!store.contains(a));
    assert_eq!(store.remove(b), Some(card(root(0, 0))));
    assert!(!store.insert(b, card(root(0, 0))));
    assert!(!store.contains(b));
}

#[test]
fn an_element_is_not_inserted_without_its_parent() {
    let mut ids = IdGenerator::new();
    let mut store = Store::new();
    let a = ids.generate_id();
    let b = ids.generate_id();
    let in_a = pos(PinPoint::top_left(), 0, 0, Some(a), PinPoint::top_left());
    assert!(!store.insert(b, card(in_a)));
    assert!(!store.contains(b));
    assert!(!store.is_known(b));
}

#[test]
fn removing_gives_the_element_back() {
    let mut ids = IdGenerator::new();
    let mut store = Store::new();
    let a = ids.generate_id();
    assert_eq!(store.remove(a), None);
    assert!(store.insert(a, card(root(3, 4))));
    assert_eq!(store.remove(a), Some(card(root(3, 4))));
    assert_eq!(store.remove(a), None);
    assert!(!store.contains(a));
}

#[test]
fn a_root_is_placed_on_the_canvas() {
    let store = Store::new();
    let dims = Vec2::new(200, 300);
    assert_eq!(store.actual_rect(&root(100, 50), dims, canvas()), Rect::new(100, 50, 200, 300));
    let centred = pos(PinPoint::center_center(), 0, 0, None, PinPoint::center_center());
    assert_eq!(store.actual_rect(&centred, dims, canvas()), Rect::new(400, 250, 200, 300));
    let bottom = pos(PinPoint::top_center(), 0, -10, None, PinPoint::bottom_center());
    assert_eq!(store.actual_rect(&bottom, dims, canvas()), Rect::new(400, 790, 200, 300));
}

#[test]
fn a_child_is_placed_in_its_parent() {
    let mut ids = IdGenerator::new();
    let mut store = Store::new();
    let a = ids.generate_id();
    let b = ids.generate_id();
    assert!(store.insert(a, card(root(100, 50))));
    let in_a = pos(PinPoint::center_center(), 0, 0, Some(a), PinPoint::center_center());
    assert!(store.insert(b, marker(in_a)));
    let dims = Vec2::new(40, 50);
    assert_eq!(store.actual_rect(&in_a, dims, canvas()), Rect::new(180, 175, 40, 50));
    let in_b = pos(PinPoint::top_left(), 5, 6, Some(b), PinPoint::bottom_right());
    assert_eq!(
        store.actual_rect(&in_b, Vec2::new(1, 1), canvas()),
        Rect::new(180 + 40 + 5, 175 + 50 + 6, 1, 1)
    );
}

#[test]
fn resolution_is_affine_in_the_pin_point() {
    let mut ids = IdGenerator::new();
    let mut store = Store::new();
    let a = ids.generate_id();
    assert!(store.insert(a, card(root(100, 50))));
    let dims = Vec2::new(201, 77);
    for parent in [None, Some(a)] {
        for pin in [
            PinPoint::top_left(),
            PinPoint::center_center(),
            PinPoint::bottom_right(),
            PinPoint::new(250, 750),
            PinPoint::new(-300, 1700),
        ] {
            let corner = pos(PinPoint::top_left(), 13, -7, parent, PinPoint::center_right());
            let pinned = pos(pin, 13, -7, parent, PinPoint::center_right());
            let at_corner = store.actual_rect(&corner, dims, canvas());
            let at_pin = store.actual_rect(&pinned, dims, canvas());
            let offset = pin.where_in_rect(Rect::new(0, 0, dims.x, dims.y));
            assert_eq!(at_pin.x + offset.x, at_corner.x);
            assert_eq!(at_pin.y + offset.y, at_corner.y);
            assert_eq!((at_pin.w, at_pin.h), (at_corner.w, at_corner.h));
        }
    }
}

#[test]
fn an_element_is_not_placed_in_itself_or_below_itself() {
    let mut ids = IdGenerator::new();
    let mut store = Store::new();
    let a = ids.generate_id();
    let b = ids.generate_id();
    let c = ids.generate_id();
    let d = ids.generate_id();
    let in_ = |parent: Id| pos(PinPoint::top_left(), 1, 1, Some(parent), PinPoint::top_left());
    assert!(store.insert(a, card(root(0, 0))));
    assert!(store.insert(b, card(in_(a))));
    assert!(store.insert(c, card(in_(b))));
    assert!(store.insert(d, card(root(0, 0))));
    assert!(store.stands_above(a, c));
    assert!(store.stands_above(c, c));
    assert!(!store.stands_above(c, a));
    assert!(!store.stands_above(d, c));
    assert!(!store.replace(a, card(in_(a))));
    assert!(!store.replace(a, card(in_(b))));
    assert!(!store.replace(a, card(in_(c))));
    assert_eq!(store.get(a), Some(card(root(0, 0))));
    assert!(store.replace(a, card(in_(d))));
    assert!(store.stands_above(d, c));
    assert!(!store.replace(d, card(in_(c))));
    assert!(store.replace(c, card(root(9, 9))));
    assert!(store.replace(d, card(in_(c))));
    assert!(store.stands_above(c, b));
    assert_eq!(
        store.actual_rect(&in_(b), Vec2::new(1, 1), canvas()),
        Rect::new(9 + 1 + 1 + 1 + 1, 9 + 1 + 1 + 1 + 1, 1, 1)
    );
}

#[test]
fn replacing_needs_the_element_and_its_parent() {
    let mut ids = IdGenerator::new();
    let mut store = Store::new();
    let a = ids.generate_id();
    let b = ids.generate_id();
    assert!(!store.replace(a, card(root(0, 0))));
    assert!(store.insert(a, card(root(0, 0))));
    let in_b = pos(PinPoint::top_left(), 1, 1, Some(b), PinPoint::top_left());
    assert!(!store.replace(a, card(in_b)));
    assert!(store.replace(a, marker(root(7, 7))));
    assert_eq!(store.get(a), Some(marker(root(7, 7))));
}

#[test]
fn an_animated_element_is_shown_between_its_position_and_its_destination() {
    let store = Store::new();
    let mut elem = card(root(100, 100));
    assert_eq!(store.current_rect(&elem, canvas()), Rect::new(100, 100, 200, 300));
    elem.move_to(root(200, 0), 1000, Some(Card::Food));
    assert_eq!(store.current_rect(&elem, canvas()), Rect::new(100, 100, 200, 300));
    let mut animation = elem.animation.unwrap();
    assert_eq!(animation.carried, Some(Card::Food));
    animation.clock.advance(400);
    elem.animation = Some(animation);
    assert_eq!(store.current_rect(&elem, canvas()), Rect::new(140, 60, 200, 300));
    animation.clock.advance(600);
    elem.animation = Some(animation);
    assert_eq!(store.current_rect(&elem, canvas()), Rect::new(200, 0, 200, 300));
}

#[test]
fn a_new_animation_discards_the_one_in_flight() {
    let mut elem = card(root(0, 0));
    elem.move_to(root(10, 10), 100, None);
    let mut animation = elem.animation.unwrap();
    animation.clock.advance(50);
    elem.animation = Some(animation);
    elem.move_to(root(20, 20), 200, Some(Card::Food));
    let animation = elem.animation.unwrap();
    assert_eq!(animation.dst_pos, root(20, 20));
    assert_eq!(animation.clock.progress().num, 0);
    assert_eq!(animation.clock.progress().den, 200);
    assert_eq!(animation.carried, Some(Card::Food));
    assert_eq!(elem.pos, root(0, 0));
}
