use asterism::collision::aabb::AabbCollision;
use asterism::collision::bodies::CollisionReaction;
use asterism::collision::contact::{sort_contacts, CollisionEventType, Contact};
use asterism::collision::ratio::{get_speed_ratio, speed_share, Ratio};
use asterism::geometry::{find_displacement, intersects, Vec2, LIMIT};
use asterism::{Event, Logic};

fn v(x: i64, y: i64) -> Vec2 {
    Vec2::new(x, y)
}

#[test]
fn overlap_counts_touching_edges() {
    assert!(intersects(v(0, 0), v(2, 2), v(4, 0), v(2, 2)));
    assert!(!intersects(v(0, 0), v(2, 2), v(5, 0), v(2, 2)));
    assert!(intersects(v(0, 0), v(2, 2), v(4, 4), v(2, 2)));
    assert!(!intersects(v(0, 0), v(2, 2), v(0, 5), v(2, 2)));
}

#[test]
fn overlap_is_symmetric_on_samples() {
    let boxes = [
        (v(0, 0), v(2, 2)),
        (v(3, 1), v(1, 4)),
        (v(-7, 2), v(5, 1)),
        (v(10, 10), v(4, 4)),
        (v(12, 10), v(4, 4)),
        (v(-LIMIT, LIMIT), v(LIMIT, 0)),
    ];
    for a in boxes.iter() {
        for b in boxes.iter() {
            assert_eq!(intersects(a.0, a.1, b.0, b.1), intersects(b.0, b.1, a.0, a.1));
        }
    }
}

#[test]
fn overlap_takes_any_coordinates() {
    assert!(!intersects(v(i64::MIN, 0), v(1, 1), v(i64::MAX, 0), v(1, 1)));
    assert!(intersects(v(i64::MAX, i64::MIN), v(0, 0), v(i64::MAX, i64::MIN), v(0, 0)));
}

#[test]
fn displacement_is_signed_depth() {
    // |10 - 12| = 2, 4 + 4 - 2 = 6; the first box lies on the low side
    assert_eq!(find_displacement(v(10, 10), v(4, 4), v(12, 10), v(4, 4)), v(-6, 8));
    assert_eq!(find_displacement(v(12, 10), v(4, 4), v(10, 10), v(4, 4)), v(6, 8));
    // apart on x by 3: the depth there is negative
    assert_eq!(find_displacement(v(0, 0), v(1, 1), v(5, 1), v(1, 1)), v(3, -1));
}

#[test]
fn displacement_is_antisymmetric_on_samples() {
    let boxes = [
        (v(0, 0), v(2, 2)),
        (v(3, 1), v(1, 4)),
        (v(-7, 2), v(5, 1)),
        (v(12, 10), v(4, 4)),
    ];
    for a in boxes.iter() {
        for b in boxes.iter() {
            if a.0.x != b.0.x && a.0.y != b.0.y {
                let ab = find_displacement(a.0, a.1, b.0, b.1);
                let ba = find_displacement(b.0, b.1, a.0, a.1);
                assert_eq!(ab, v(-ba.x, -ba.y));
            }
        }
    }
}

#[test]
fn displacement_of_coinciding_centers_is_positive_both_ways() {
    assert_eq!(find_displacement(v(5, 5), v(2, 3), v(5, 5), v(1, 1)), v(3, 4));
    assert_eq!(find_displacement(v(5, 5), v(1, 1), v(5, 5), v(2, 3)), v(3, 4));
}

#[test]
fn restitution_picks_shallower_axis() {
    let c = |x: i64, y: i64| Contact { i: 0, j: 1, displacement: v(x, y) };
    assert_eq!(c(-6, 8).get_restitution(), v(-6, 0));
    assert_eq!(c(9, -2).get_restitution(), v(0, -2));
    assert_eq!(c(5, -5).get_restitution(), v(0, 0));
    assert_eq!(c(0, 0).get_restitution(), v(0, 0));
    assert_eq!(c(i64::MIN, i64::MAX).get_restitution(), v(0, i64::MAX));
}

#[test]
fn depth_is_squared_length() {
    let c = Contact { i: 0, j: 1, displacement: v(-3, 4) };
    assert_eq!(c.depth(), 25);
    let far = Contact { i: 0, j: 1, displacement: v(i64::MIN, i64::MIN) };
    assert_eq!(far.depth(), 1u128 << 127);
}

#[test]
fn speed_share_follows_speeds() {
    assert_eq!(speed_share(0, 0), Ratio { num: 1, den: 2 });
    assert_eq!(speed_share(0, 5), Ratio { num: 1, den: 1 });
    assert_eq!(speed_share(-3, 0), Ratio { num: 3, den: 3 });
    assert_eq!(speed_share(-3, 9), Ratio { num: 3, den: 12 });
    assert_eq!(
        speed_share(i64::MIN, i64::MIN),
        Ratio { num: 1u128 << 63, den: 1u128 << 64 }
    );
    let r = get_speed_ratio(v(2, 0), v(-6, 0));
    assert_eq!(r.x, Ratio { num: 2, den: 8 });
    assert_eq!(r.y, Ratio { num: 1, den: 2 });
}

#[test]
fn share_rounds_toward_zero() {
    let quarter = Ratio { num: 1, den: 4 };
    assert_eq!(quarter.of(8), 2);
    assert_eq!(quarter.of(7), 1);
    assert_eq!(quarter.of(-7), -1);
    assert_eq!(quarter.of(0), 0);
    assert_eq!(Ratio::half().of(5), 2);
    assert_eq!(Ratio::half().of(-5), -2);
    assert_eq!(Ratio::one().of(i64::MIN), i64::MIN);
    assert_eq!(Ratio { num: 1u128 << 63, den: 1u128 << 64 }.of(i64::MAX), i64::MAX / 2);
}

#[test]
fn moved_stops_at_the_edge_of_the_range() {
    assert_eq!(v(1, 2).moved(3, -5), v(4, -3));
    assert_eq!(v(LIMIT - 1, -LIMIT + 1).moved(5, -5), v(LIMIT, -LIMIT));
    assert_eq!(v(i64::MAX, i64::MIN).moved(i64::MAX, i64::MIN), v(LIMIT, -LIMIT));
}

#[test]
fn sort_is_deepest_first_and_stable() {
    let c = |i: usize, x: i64, y: i64| Contact { i, j: 9, displacement: v(x, y) };
    let mut contacts = vec![c(0, 1, 0), c(1, 3, 0), c(2, 0, -3), c(3, 0, 0), c(4, 2, 2), c(5, -3, 0)];
    sort_contacts(&mut contacts);
    let order: Vec<usize> = contacts.iter().map(|c| c.i).collect();
    assert_eq!(order, vec![1, 2, 5, 4, 0, 3]);
    let mut none: Vec<Contact> = Vec::new();
    sort_contacts(&mut none);
    assert!(none.is_empty());
}

fn two_equal_boxes() -> AabbCollision<u32> {
    let mut engine = AabbCollision::new();
    engine.add_collision_entity(v(10, 10), v(4, 4), v(0, 0), true, false, 7);
    engine.add_collision_entity(v(12, 10), v(4, 4), v(0, 0), true, false, 8);
    engine
}

#[test]
fn equal_boxes_at_rest_part_evenly_along_x() {
    let mut engine = two_equal_boxes();
    assert!(engine.is_wf());
    engine.update();
    assert_eq!(engine.centers, vec![v(7, 10), v(15, 10)]);
    assert_eq!(engine.half_sizes, vec![v(4, 4), v(4, 4)]);
    assert_eq!(engine.events(), &[Contact { i: 0, j: 1, displacement: v(-6, 8) }]);
    assert_eq!(engine.get_ids(&engine.events()[0]), (7, 8));
    // the boxes now only touch: a second step finds them and leaves them
    engine.update();
    assert_eq!(engine.centers, vec![v(7, 10), v(15, 10)]);
    assert_eq!(engine.events(), &[Contact { i: 0, j: 1, displacement: v(0, 8) }]);
}

#[test]
fn body_on_fixed_floor_is_lifted_by_the_whole_depth() {
    let mut engine: AabbCollision<&str> = AabbCollision::new();
    engine.add_collision_entity(v(100, 110), v(1000, 8), v(0, 0), true, true, "floor");
    engine.add_collision_entity(v(100, 100), v(5, 5), v(0, -2), true, false, "ball");
    engine.update();
    assert_eq!(engine.centers, vec![v(100, 110), v(100, 97)]);
    // the unfixed body comes first in the contact
    assert_eq!(engine.events(), &[Contact { i: 1, j: 0, displacement: v(1005, -3) }]);
    assert_eq!(engine.get_ids(&engine.events()[0]), ("ball", "floor"));
    assert_eq!(engine.sides_touched(0, 1), v(0, 0).moved(0, 1));
}

#[test]
fn bodies_apart_do_not_move() {
    let mut engine: AabbCollision<u8> = AabbCollision::new();
    engine.add_collision_entity(v(0, 0), v(2, 2), v(3, 3), true, false, 0);
    engine.add_collision_entity(v(5, 0), v(2, 2), v(-3, 0), true, false, 1);
    engine.update();
    assert_eq!(engine.centers, vec![v(0, 0), v(5, 0)]);
    assert!(engine.events().is_empty());
}

#[test]
fn fixed_bodies_never_move() {
    let mut engine: AabbCollision<u8> = AabbCollision::new();
    engine.add_collision_entity(v(0, 0), v(4, 4), v(1, 1), true, true, 0);
    engine.add_collision_entity(v(3, 1), v(4, 4), v(1, 1), true, true, 1);
    engine.add_collision_entity(v(2, 5), v(4, 4), v(2, 0), true, false, 2);
    engine.add_collision_entity(v(-1, -2), v(1, 1), v(0, 0), false, true, 3);
    engine.update();
    assert_eq!(engine.centers[0], v(0, 0));
    assert_eq!(engine.centers[1], v(3, 1));
    assert_eq!(engine.centers[3], v(-1, -2));
    assert_ne!(engine.centers[2], v(2, 5));
    assert_eq!(engine.events().len(), 5);
}

#[test]
fn non_solid_pair_is_reported_and_left() {
    let mut engine: AabbCollision<u8> = AabbCollision::new();
    engine.add_collision_entity(v(0, 0), v(4, 4), v(1, 0), true, false, 0);
    engine.add_collision_entity(v(3, 1), v(4, 4), v(0, 1), false, false, 1);
    engine.update();
    assert_eq!(engine.centers, vec![v(0, 0), v(3, 1)]);
    assert_eq!(engine.events(), &[Contact { i: 0, j: 1, displacement: v(0, 0) }]);
    assert!(matches!(engine.events()[0].get_type(), CollisionEventType::Touching));
}

#[test]
fn moving_bodies_share_by_speed() {
    let mut engine: AabbCollision<u8> = AabbCollision::new();
    // depth on x: 4 + 4 - 3 = 5, on y: 8; speeds on x: 1 and 4
    engine.add_collision_entity(v(0, 0), v(4, 4), v(1, 0), true, false, 0);
    engine.add_collision_entity(v(3, 0), v(4, 4), v(-4, 0), true, false, 1);
    engine.update();
    // the first takes 5 * 1 / 5 = 1, the second the other 4
    assert_eq!(engine.centers, vec![v(-1, 0), v(7, 0)]);
}

#[test]
fn body_at_rest_yields_to_a_moving_one() {
    let mut engine: AabbCollision<u8> = AabbCollision::new();
    engine.add_collision_entity(v(0, 0), v(4, 4), v(0, 0), true, false, 0);
    engine.add_collision_entity(v(3, 0), v(4, 4), v(-4, 0), true, false, 1);
    engine.update();
    assert_eq!(engine.centers, vec![v(-5, 0), v(3, 0)]);
}

#[test]
fn odd_correction_leaves_the_odd_unit_to_the_second() {
    let mut engine: AabbCollision<u8> = AabbCollision::new();
    engine.add_collision_entity(v(0, 0), v(4, 4), v(2, 0), true, false, 0);
    engine.add_collision_entity(v(3, 0), v(4, 4), v(-2, 0), true, false, 1);
    engine.update();
    assert_eq!(engine.centers, vec![v(-2, 0), v(6, 0)]);
}

#[test]
fn equal_depth_on_both_axes_is_left_alone() {
    let mut engine: AabbCollision<u8> = AabbCollision::new();
    engine.add_collision_entity(v(0, 0), v(4, 4), v(0, 0), true, false, 0);
    engine.add_collision_entity(v(3, 3), v(4, 4), v(0, 0), true, false, 1);
    engine.update();
    assert_eq!(engine.centers, vec![v(0, 0), v(3, 3)]);
    assert_eq!(engine.events(), &[Contact { i: 0, j: 1, displacement: v(-5, -5) }]);
    assert_eq!(engine.sides_touched(0, 1), v(0, 0));
}

#[test]
fn deepest_contact_is_resolved_first() {
    let mut engine: AabbCollision<u8> = AabbCollision::new();
    engine.add_collision_entity(v(0, 0), v(2, 2), v(0, 0), true, false, 0);
    engine.add_collision_entity(v(3, 0), v(2, 2), v(0, 0), true, false, 1);
    engine.add_collision_entity(v(5, 0), v(2, 2), v(0, 0), true, false, 2);
    engine.update();
    // pair (1, 2) is deeper, (2, 4), than pair (0, 1), (1, 4): it goes first
    // and is measured before anything moved; pair (0, 1) then finds body 1
    // already pushed toward it
    assert_eq!(
        engine.events(),
        &[
            Contact { i: 1, j: 2, displacement: v(-2, 4) },
            Contact { i: 0, j: 1, displacement: v(-2, 4) },
        ]
    );
    assert_eq!(engine.centers, vec![v(-1, 0), v(3, 0), v(6, 0)]);
}

#[test]
fn correction_stops_at_the_edge_of_the_range() {
    let mut engine: AabbCollision<u8> = AabbCollision::new();
    engine.add_collision_entity(v(LIMIT, 0), v(4, 9), v(0, 0), true, false, 0);
    engine.add_collision_entity(v(LIMIT - 2, 0), v(4, 9), v(0, 0), true, false, 1);
    engine.update();
    assert_eq!(engine.centers, vec![v(LIMIT, 0), v(LIMIT - 5, 0)]);
    assert!(engine.is_wf());
}

#[test]
fn added_body_is_found_under_its_index() {
    let mut engine: AabbCollision<char> = AabbCollision::new();
    engine.add_collision_entity(v(1, 2), v(3, 4), v(5, 6), true, false, 'a');
    engine.add_collision_entity(v(-1, -2), v(0, 9), v(-5, -6), false, true, 'b');
    let second = engine.get_ident_data(1);
    assert_eq!(*second.center, v(-1, -2));
    assert_eq!(*second.half_size, v(0, 9));
    assert_eq!(*second.vel, v(-5, -6));
    assert!(!second.meta.solid);
    assert!(second.meta.fixed);
    assert_eq!(second.meta.id, 'b');
    let first = engine.get_ident_data(0);
    assert_eq!(first.meta.id, 'a');
    assert_eq!(*first.center, v(1, 2));
}

#[test]
fn entity_from_corner_and_size() {
    let mut engine: AabbCollision<u8> = AabbCollision::new();
    engine.add_entity_as_xywh(v(10, 20), v(6, 9), v(1, 1), true, false, 0);
    assert_eq!(engine.half_sizes, vec![v(3, 4)]);
    assert_eq!(engine.centers, vec![v(13, 24)]);
    assert_eq!(engine.velocities, vec![v(1, 1)]);
}

#[test]
fn reactions_change_one_body() {
    let mut engine = two_equal_boxes();
    engine.handle_predicate(&CollisionReaction::SetCenter(0, v(1, 1)));
    assert_eq!(engine.centers, vec![v(1, 1), v(12, 10)]);
    engine.handle_predicate(&CollisionReaction::SetSize(1, v(2, 3)));
    assert_eq!(engine.half_sizes, vec![v(4, 4), v(2, 3)]);
    engine.handle_predicate(&CollisionReaction::SetPos(1, v(20, 30)));
    assert_eq!(engine.centers, vec![v(1, 1), v(22, 33)]);
    engine.handle_predicate(&CollisionReaction::SetVel(0, v(-9, 9)));
    assert_eq!(engine.velocities, vec![v(-9, 9), v(0, 0)]);
    engine.handle_predicate(&CollisionReaction::SetMetadata(0, false, true));
    assert!(!engine.metadata[0].solid);
    assert!(engine.metadata[0].fixed);
    assert_eq!(engine.metadata[0].id, 7);
    assert!(engine.metadata[1].solid);
    engine.handle_predicate(&CollisionReaction::AddBody {
        center: v(0, 0),
        half_size: v(1, 1),
        vel: v(0, 1),
        solid: false,
        fixed: false,
        id: 9,
    });
    assert_eq!(engine.centers.len(), 3);
    assert_eq!(engine.metadata[2].id, 9);
    engine.handle_predicate(&CollisionReaction::RemoveBody(0));
    assert_eq!(engine.centers, vec![v(22, 33), v(0, 0)]);
    assert_eq!(engine.half_sizes, vec![v(2, 3), v(1, 1)]);
    assert_eq!(engine.velocities, vec![v(0, 0), v(0, 1)]);
    assert_eq!(engine.metadata[0].id, 8);
    assert_eq!(engine.metadata[1].id, 9);
    assert!(engine.is_wf());
}

#[test]
fn body_is_changed_in_place() {
    let mut engine = two_equal_boxes();
    {
        let body = engine.get_ident_data_mut(1);
        *body.center = v(50, 60);
        body.meta.fixed = true;
    }
    assert_eq!(engine.centers, vec![v(10, 10), v(50, 60)]);
    assert!(engine.metadata[1].fixed);
    assert!(!engine.metadata[0].fixed);
}

#[test]
fn walk_visits_every_body_in_order() {
    let mut engine = two_equal_boxes();
    let mut seen = Vec::new();
    let mut iter = engine.data_iter();
    while let Some((idx, data)) = iter.next() {
        seen.push((idx, *data.center, data.meta.id));
    }
    assert!(iter.next().is_none());
    assert_eq!(seen, vec![(0, v(10, 10), 7), (1, v(12, 10), 8)]);
}

#[test]
fn clear_removes_every_body() {
    let mut engine = two_equal_boxes();
    engine.update();
    engine.clear();
    assert!(engine.centers.is_empty());
    assert!(engine.half_sizes.is_empty());
    assert!(engine.velocities.is_empty());
    assert!(engine.metadata.is_empty());
    assert!(engine.is_wf());
    engine.update();
    assert!(engine.events().is_empty());
}

#[test]
fn malformed_engine_is_told_apart() {
    let mut engine = two_equal_boxes();
    engine.centers.pop();
    assert!(!engine.is_wf());
    let mut engine = two_equal_boxes();
    engine.half_sizes[0] = v(-1, 4);
    assert!(!engine.is_wf());
    let mut engine = two_equal_boxes();
    engine.centers[1] = v(LIMIT + 1, 0);
    assert!(!engine.is_wf());
    assert!(v(LIMIT, -LIMIT).fits());
    assert!(!v(0, LIMIT + 1).fits());
    assert!(v(0, LIMIT).fits_extent());
    assert!(!v(-1, 0).fits_extent());
}

#[test]
fn sides_touched_names_the_axis() {
    let mut engine: AabbCollision<u8> = AabbCollision::new();
    engine.add_collision_entity(v(10, 10), v(4, 4), v(0, 0), true, false, 0);
    engine.add_collision_entity(v(12, 10), v(4, 4), v(0, 0), true, false, 1);
    engine.add_collision_entity(v(10, 17), v(4, 4), v(0, 0), true, true, 2);
    assert_eq!(engine.sides_touched(0, 1), v(1, 0));
    assert_eq!(engine.sides_touched(1, 0), v(1, 0));
    assert_eq!(engine.sides_touched(0, 2), v(0, 1));
    assert_eq!(engine.sides_touched(2, 0), v(0, 1));
}

#[test]
fn body_is_found_under_its_token() {
    let mut engine: AabbCollision<&str> = AabbCollision::new();
    assert_eq!(engine.index_of("ball"), None);
    engine.add_collision_entity(v(1, 2), v(3, 4), v(5, 6), true, false, "wall");
    engine.add_collision_entity(v(7, 8), v(9, 10), v(11, 12), false, true, "ball");
    engine.add_collision_entity(v(0, 0), v(0, 0), v(0, 0), false, false, "wall");
    assert_eq!(engine.index_of("wall"), Some(0));
    let at = engine.index_of("ball").unwrap();
    assert_eq!(at, 1);
    let body = engine.get_ident_data(at);
    assert_eq!(*body.center, v(7, 8));
    assert_eq!(*body.half_size, v(9, 10));
    assert_eq!(*body.vel, v(11, 12));
    assert!(!body.meta.solid);
    assert!(body.meta.fixed);
    assert_eq!(body.meta.id, "ball");
    engine.handle_predicate(&CollisionReaction::RemoveBody(0));
    assert_eq!(engine.index_of("ball"), Some(0));
    assert_eq!(engine.index_of("wall"), Some(1));
    assert_eq!(engine.index_of("paddle"), None);
}
