use bird_invaders::keyed::KeyedList;
use bird_invaders::physics::{
    below_despawn_line, collider_contact, find_contacts, vec_contains_u64, Aabb, Collider,
    ColliderContactEvent, ColliderIntersectionMode, ColliderState, Rect, Vec2i,
};

fn boxed(entity: u64, x: i64, y: i64, half: i64, mode: ColliderIntersectionMode) -> ColliderState {
    let translation = Vec2i { x, y };
    ColliderState {
        entity,
        aabb: Some(Aabb::of_rect(Rect { half_width: half, half_height: half }, translation)),
        mode,
        translation,
    }
}

#[test]
fn rect_from_size_halves() {
    let r = Rect::from_size(100, 10);
    assert_eq!(r.half_width, 50);
    assert_eq!(r.half_height, 5);
    let odd = Rect::from_size(7, 3);
    assert_eq!(odd.half_width, 3);
    assert_eq!(odd.half_height, 1);
}

#[test]
fn aabb_of_rect_spans_the_rect() {
    let b = Aabb::of_rect(Rect { half_width: 4, half_height: 2 }, Vec2i { x: 10, y: -5 });
    assert_eq!(b.min, Vec2i { x: 6, y: -7 });
    assert_eq!(b.max, Vec2i { x: 14, y: -3 });
}

#[test]
fn aabb_intersections_are_closed() {
    let a = Aabb { min: Vec2i { x: 0, y: 0 }, max: Vec2i { x: 10, y: 10 } };
    let apart = Aabb { min: Vec2i { x: 11, y: 0 }, max: Vec2i { x: 20, y: 10 } };
    let edge = Aabb { min: Vec2i { x: 10, y: 10 }, max: Vec2i { x: 20, y: 20 } };
    let inside = Aabb { min: Vec2i { x: 2, y: 2 }, max: Vec2i { x: 3, y: 3 } };
    assert!(!a.intersects(&apart));
    assert!(a.intersects(&edge));
    assert!(a.intersects(&inside));
    assert!(edge.intersects(&a));
}

#[test]
fn find_contacts_reports_each_overlapping_pair_once() {
    let colliders = vec![
        boxed(1, 0, 0, 6, ColliderIntersectionMode::AllowAll),
        boxed(2, 5, 5, 6, ColliderIntersectionMode::AllowAll),
        boxed(3, 100, 100, 6, ColliderIntersectionMode::AllowAll),
    ];
    let (events, rollback) = find_contacts(&colliders);
    assert_eq!(events.len(), 1);
    assert_eq!(events[0], ColliderContactEvent { a: 1, b: 2 });
    assert!(rollback.is_empty());
}

#[test]
fn find_contacts_marks_mutually_solid_pairs_for_rollback() {
    let colliders = vec![
        boxed(1, 0, 0, 6, ColliderIntersectionMode::Disallow),
        boxed(2, 5, 5, 6, ColliderIntersectionMode::Disallow),
        boxed(3, 5, -5, 6, ColliderIntersectionMode::AllowAll),
    ];
    let (events, rollback) = find_contacts(&colliders);
    // pairs (1,2), (1,3), (2,3) all touch; only (1,2) is rolled back
    assert_eq!(events.len(), 3);
    assert_eq!(rollback, vec![1, 2]);
}

#[test]
fn missing_aabbs_never_touch() {
    let mut a = boxed(1, 0, 0, 6, ColliderIntersectionMode::AllowAll);
    a.aabb = None;
    let b = boxed(2, 0, 0, 6, ColliderIntersectionMode::AllowAll);
    let (events, _) = find_contacts(&vec![a, b]);
    assert!(events.is_empty());
}

#[test]
fn collider_contact_rolls_back_to_the_last_clear_translation() {
    let mut prev: KeyedList<Vec2i> = KeyedList::new();
    // First step: the two solid colliders stand apart, so their translations
    // are remembered.
    let mut colliders = vec![
        boxed(1, 0, 0, 6, ColliderIntersectionMode::Disallow),
        boxed(2, 50, 0, 6, ColliderIntersectionMode::Disallow),
    ];
    let events = collider_contact(&mut colliders, &mut prev, &vec![]);
    assert!(events.is_empty());
    assert_eq!(colliders[0].translation, Vec2i { x: 0, y: 0 });
    assert_eq!(colliders[1].translation, Vec2i { x: 50, y: 0 });

    // Second step: entity 2 has moved onto entity 1; the contact is reported
    // and both fall back, entity 2 to its remembered translation.
    let mut moved = vec![
        boxed(1, 0, 0, 6, ColliderIntersectionMode::Disallow),
        boxed(2, 5, 0, 6, ColliderIntersectionMode::Disallow),
    ];
    let events = collider_contact(&mut moved, &mut prev, &vec![]);
    assert_eq!(events.len(), 1);
    assert_eq!(events[0], ColliderContactEvent { a: 1, b: 2 });
    assert_eq!(moved[0].translation, Vec2i { x: 0, y: 0 });
    assert_eq!(moved[1].translation, Vec2i { x: 50, y: 0 });
}

#[test]
fn collider_contact_forgets_removed_entities() {
    let mut prev: KeyedList<Vec2i> = KeyedList::new();
    let mut colliders = vec![boxed(7, 3, 4, 2, ColliderIntersectionMode::Disallow)];
    collider_contact(&mut colliders, &mut prev, &vec![]);
    assert_eq!(prev.get(7), Some(&Vec2i { x: 3, y: 4 }));
    let mut empty: Vec<ColliderState> = Vec::new();
    collider_contact(&mut empty, &mut prev, &vec![7]);
    assert_eq!(prev.get(7), None);
}

#[test]
fn despawn_line_sits_fifty_under_the_window() {
    assert!(!below_despawn_line(-350, 600));
    assert!(!below_despawn_line(0, 600));
    assert!(below_despawn_line(-351, 600));
}

#[test]
fn either_entity_prefers_the_first_side() {
    let ev = ColliderContactEvent { a: 10, b: 20 };
    assert_eq!(ev.either_entity(true, true), Some(10));
    assert_eq!(ev.either_entity(true, false), Some(10));
    assert_eq!(ev.either_entity(false, true), Some(20));
    assert_eq!(ev.either_entity(false, false), None);
}

#[test]
fn between_needs_a_match_on_each_side() {
    let ev = ColliderContactEvent { a: 10, b: 20 };
    assert_eq!(ev.between(true, false, false, true), Some((10, 20)));
    assert_eq!(ev.between(false, true, true, false), Some((20, 10)));
    assert_eq!(ev.between(true, true, true, true), Some((10, 10)));
    assert_eq!(ev.between(true, false, false, false), None);
    assert_eq!(ev.between(false, false, false, true), None);
}

#[test]
fn vec_contains_scans_the_whole_vector() {
    assert!(vec_contains_u64(&vec![1, 2, 3], 3));
    assert!(!vec_contains_u64(&vec![1, 2, 3], 4));
    assert!(!vec_contains_u64(&vec![], 0));
}

#[test]
fn keyed_list_keeps_one_entry_per_key() {
    let mut m: KeyedList<Vec2i> = KeyedList::new();
    assert_eq!(m.len(), 0);
    m.put(1, Vec2i { x: 1, y: 1 });
    m.put(2, Vec2i { x: 2, y: 2 });
    m.put(1, Vec2i { x: 9, y: 9 });
    assert_eq!(m.len(), 2);
    assert_eq!(m.key_at(0), 1);
    assert_eq!(m.key_at(1), 2);
    assert_eq!(m.get(1), Some(&Vec2i { x: 9, y: 9 }));
    assert_eq!(m.get(2), Some(&Vec2i { x: 2, y: 2 }));
    m.remove_key(1);
    assert_eq!(m.get(1), None);
    assert_eq!(m.len(), 1);
}
