use asterism::geometry::{Vec2, LIMIT};
use asterism::physics::{
    PhysicsEvent, PhysicsEventType, PhysicsReaction, PointPhysics, PtPhysicsEventIter,
};
use asterism::{Event, Logic};

fn p(x: i64, y: i64) -> Vec2 {
    Vec2::new(x, y)
}

#[test]
fn step_adds_acceleration_then_velocity() {
    let mut physics = PointPhysics::new();
    physics.add_physics_entity(p(0, 0), p(1, 2), p(0, -1));
    physics.add_physics_entity(p(10, 10), p(0, 0), p(3, 4));
    physics.add_physics_entity(p(5, 5), p(0, 0), p(0, 0));
    physics.update();
    assert_eq!(physics.velocities, vec![p(1, 1), p(3, 4), p(0, 0)]);
    assert_eq!(physics.positions, vec![p(1, 1), p(13, 14), p(5, 5)]);
    assert_eq!(physics.accelerations, vec![p(0, -1), p(3, 4), p(0, 0)]);
    assert_eq!(
        physics.events().to_vec(),
        vec![
            PhysicsEvent { ent: 0, event_type: PhysicsEventType::PosChange },
            PhysicsEvent { ent: 1, event_type: PhysicsEventType::VelChange },
        ]
    );
    assert!(matches!(physics.events()[1].get_type(), PhysicsEventType::VelChange));
}

#[test]
fn point_that_moves_and_accelerates_reports_both() {
    let mut physics = PointPhysics::new();
    physics.add_physics_entity(p(0, 0), p(1, 1), p(1, 1));
    physics.update();
    assert_eq!(
        physics.events().to_vec(),
        vec![
            PhysicsEvent { ent: 0, event_type: PhysicsEventType::VelChange },
            PhysicsEvent { ent: 0, event_type: PhysicsEventType::PosChange },
        ]
    );
    let mut events = PtPhysicsEventIter::new(&physics);
    assert!(events.next().is_some());
    assert!(events.next().is_some());
    assert!(events.next().is_none());
    assert!(events.next().is_none());
}

#[test]
fn coordinates_stop_at_the_edge_of_the_range() {
    let mut physics = PointPhysics::new();
    physics.add_physics_entity(p(LIMIT - 1, 0), p(LIMIT, i64::MIN), p(i64::MAX, -1));
    physics.update();
    assert_eq!(physics.velocities, vec![p(LIMIT, -LIMIT)]);
    assert_eq!(physics.positions, vec![p(LIMIT, -LIMIT)]);
}

#[test]
fn physics_reactions_change_the_points() {
    let mut physics = PointPhysics::new();
    physics.handle_predicate(&PhysicsReaction::AddBody { pos: p(1, 1), vel: p(2, 2), acc: p(3, 3) });
    physics.handle_predicate(&PhysicsReaction::AddBody { pos: p(4, 4), vel: p(5, 5), acc: p(6, 6) });
    physics.handle_predicate(&PhysicsReaction::SetPos(1, p(0, 9)));
    physics.handle_predicate(&PhysicsReaction::SetVel(0, p(7, 7)));
    physics.handle_predicate(&PhysicsReaction::SetAcc(1, p(8, 8)));
    assert_eq!(physics.positions, vec![p(1, 1), p(0, 9)]);
    assert_eq!(physics.velocities, vec![p(7, 7), p(5, 5)]);
    assert_eq!(physics.accelerations, vec![p(3, 3), p(8, 8)]);
    {
        let point = Logic::get_ident_data(&mut physics, 0);
        *point.pos = p(-1, -1);
        *point.acc = p(0, 0);
    }
    assert_eq!(physics.positions[0], p(-1, -1));
    assert_eq!(physics.accelerations[0], p(0, 0));
    let mut seen = Vec::new();
    let mut iter = physics.data_iter();
    while let Some((idx, data)) = iter.next() {
        seen.push((idx, *data.pos, *data.vel, *data.acc));
    }
    assert_eq!(seen, vec![(0, p(-1, -1), p(7, 7), p(0, 0)), (1, p(0, 9), p(5, 5), p(8, 8))]);
    physics.handle_predicate(&PhysicsReaction::RemoveBody(0));
    assert_eq!(physics.positions, vec![p(0, 9)]);
    assert_eq!(physics.velocities, vec![p(5, 5)]);
    assert_eq!(physics.accelerations, vec![p(8, 8)]);
    physics.clear();
    assert!(physics.positions.is_empty());
    assert!(physics.velocities.is_empty());
    assert!(physics.accelerations.is_empty());
}
