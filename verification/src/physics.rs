//! Physics logics.
//!
//! A physics logic says that physical laws govern how some things move. This
//! one moves points: each step adds the acceleration of a point to its
//! velocity, and the new velocity to its position.

use crate::geometry::Vec2;
use crate::{Event, EventType, Logic, Reaction};
use vstd::prelude::*;

verus! {

/// What changed for a point in a step.
#[derive(Clone, Copy, PartialEq, Eq, Structural, Debug)]
pub enum PhysicsEventType {
    /// The point has an acceleration along both axes.
    VelChange,
    /// The point had a velocity along both axes when the step began.
    PosChange,
}

/// Something that happened to point `ent`.
#[derive(Clone, Copy, PartialEq, Eq, Structural, Debug)]
pub struct PhysicsEvent {
    pub ent: usize,
    pub event_type: PhysicsEventType,
}

/// A change to the points of a physics logic.
#[derive(Clone, Copy, PartialEq, Eq, Structural, Debug)]
pub enum PhysicsReaction {
    SetPos(usize, Vec2),
    SetVel(usize, Vec2),
    SetAcc(usize, Vec2),
    /// Removes a point. The points behind it move down by one index.
    RemoveBody(usize),
    /// Adds a point behind the others.
    AddBody { pos: Vec2, vel: Vec2, acc: Vec2 },
}

/// One point of a physics logic, to read.
pub struct PointPhysData<'data> {
    pub pos: &'data Vec2,
    pub vel: &'data Vec2,
    pub acc: &'data Vec2,
}

/// One point of a physics logic, to change in place.
pub struct PointPhysDataMut<'data> {
    pub pos: &'data mut Vec2,
    pub vel: &'data mut Vec2,
    pub acc: &'data mut Vec2,
}

/// A physics logic for points in the plane. Entry `k` of each vector
/// describes point `k`.
pub struct PointPhysics {
    pub positions: Vec<Vec2>,
    pub velocities: Vec<Vec2>,
    pub accelerations: Vec<Vec2>,
    /// What happened in the last step.
    pub events: Vec<PhysicsEvent>,
}

/// The velocity of a point after a step: the old one and the acceleration
/// added, each coordinate held to the range.
pub open spec fn next_velocity(vel: Vec2, acc: Vec2) -> Vec2 {
    vel.spec_moved(acc.x as int, acc.y as int)
}

/// The position of a point after a step: the old one and the new velocity
/// added, each coordinate held to the range.
pub open spec fn next_position(pos: Vec2, vel: Vec2, acc: Vec2) -> Vec2 {
    pos.spec_moved(next_velocity(vel, acc).x as int, next_velocity(vel, acc).y as int)
}

/// The events that point `ent` gives rise to in a step.
pub open spec fn point_events(ent: int, vel: Vec2, acc: Vec2) -> Seq<PhysicsEvent> {
    let vel_change = if acc.x != 0 && acc.y != 0 {
        seq![PhysicsEvent { ent: ent as usize, event_type: PhysicsEventType::VelChange }]
    } else {
        Seq::empty()
    };
    let pos_change = if vel.x != 0 && vel.y != 0 {
        seq![PhysicsEvent { ent: ent as usize, event_type: PhysicsEventType::PosChange }]
    } else {
        Seq::empty()
    };
    vel_change + pos_change
}

/// The events of the first `n` points, point by point.
pub open spec fn events_of(velocities: Seq<Vec2>, accelerations: Seq<Vec2>, n: int) -> Seq<
    PhysicsEvent,
>
    decreases n,
{
    if n <= 0 {
        Seq::empty()
    } else {
        events_of(velocities, accelerations, n - 1) + point_events(
            n - 1,
            velocities[n - 1],
            accelerations[n - 1],
        )
    }
}

impl PointPhysics {
    /// The number of points.
    pub open spec fn len(&self) -> nat {
        self.positions@.len()
    }

    /// The three vectors have one length.
    pub open spec fn spec_wf(&self) -> bool {
        self.velocities@.len() == self.positions@.len() && self.accelerations@.len()
            == self.positions@.len()
    }

    /// A logic without points.
    pub fn new() -> (logic: Self)
        ensures
            logic.spec_wf(),
            logic.len() == 0,
            logic.events@ == Seq::<PhysicsEvent>::empty(),
    {
        Self {
            positions: Vec::new(),
            velocities: Vec::new(),
            accelerations: Vec::new(),
            events: Vec::new(),
        }
    }

    /// Takes a step: each point gets its acceleration added to its velocity,
    /// and then the new velocity added to its position. A coordinate that would
    /// leave the range stops at its edge.
    ///
    /// A point is reported as changing velocity when it accelerates along both
    /// axes, and as changing position when it was moving along both axes.
    pub fn update(&mut self)
        requires
            old(self).spec_wf(),
        ensures
            final(self).spec_wf(),
            final(self).len() == old(self).len(),
            final(self).accelerations@ == old(self).accelerations@,
            forall|k: int|
                0 <= k < old(self).len() ==> #[trigger] final(self).velocities@[k]
                    == next_velocity(old(self).velocities@[k], old(self).accelerations@[k]),
            forall|k: int|
                0 <= k < old(self).len() ==> #[trigger] final(self).positions@[k]
                    == next_position(
                    old(self).positions@[k],
                    old(self).velocities@[k],
                    old(self).accelerations@[k],
                ),
            final(self).events@ == events_of(
                old(self).velocities@,
                old(self).accelerations@,
                old(self).len() as int,
            ),
    {
        self.events.clear();
        let n: usize = self.positions.len();
        let mut i: usize = 0;
        while i < n
            invariant
                i <= n,
                n == old(self).len(),
                old(self).spec_wf(),
                self.spec_wf(),
                self.len() == n,
                self.accelerations@ == old(self).accelerations@,
                forall|k: int|
                    0 <= k < i ==> #[trigger] self.velocities@[k] == next_velocity(
                        old(self).velocities@[k],
                        old(self).accelerations@[k],
                    ),
                forall|k: int|
                    0 <= k < i ==> #[trigger] self.positions@[k] == next_position(
                        old(self).positions@[k],
                        old(self).velocities@[k],
                        old(self).accelerations@[k],
                    ),
                forall|k: int| i <= k < n ==> #[trigger] self.velocities@[k] == old(self).velocities@[k],
                forall|k: int| i <= k < n ==> #[trigger] self.positions@[k] == old(self).positions@[k],
                self.events@ == events_of(old(self).velocities@, old(self).accelerations@, i as int),
            decreases n - i,
        {
            let ghost so_far = self.events@;
            let acc: Vec2 = self.accelerations[i];
            let vel: Vec2 = self.velocities[i];
            let pos: Vec2 = self.positions[i];
            if acc.x != 0 && acc.y != 0 {
                self.events.push(PhysicsEvent { ent: i, event_type: PhysicsEventType::VelChange });
            }
            if vel.x != 0 && vel.y != 0 {
                self.events.push(PhysicsEvent { ent: i, event_type: PhysicsEventType::PosChange });
            }
            assert(self.events@ =~= so_far + point_events(i as int, vel, acc));
            let new_vel = vel.moved(acc.x, acc.y);
            self.velocities.set(i, new_vel);
            self.positions.set(i, pos.moved(new_vel.x, new_vel.y));
            i += 1;
        }
    }

    /// Adds a point with the given position, velocity and acceleration, behind
    /// the others.
    pub fn add_physics_entity(&mut self, pos: Vec2, vel: Vec2, acc: Vec2)
        requires
            old(self).spec_wf(),
        ensures
            final(self).spec_wf(),
            final(self).positions@ == old(self).positions@.push(pos),
            final(self).velocities@ == old(self).velocities@.push(vel),
            final(self).accelerations@ == old(self).accelerations@.push(acc),
            final(self).events@ == old(self).events@,
    {
        self.positions.push(pos);
        self.velocities.push(vel);
        self.accelerations.push(acc);
    }

    /// Removes every point. The events of the last step are kept.
    pub fn clear(&mut self)
        ensures
            final(self).spec_wf(),
            final(self).len() == 0,
            final(self).events@ == old(self).events@,
    {
        self.positions.clear();
        self.velocities.clear();
        self.accelerations.clear();
    }

    /// What the logic holds of point `ident`.
    pub fn get_ident_data(&self, ident: usize) -> (data: PointPhysData<'_>)
        requires
            self.spec_wf(),
            ident < self.len(),
        ensures
            *data.pos == self.positions@[ident as int],
            *data.vel == self.velocities@[ident as int],
            *data.acc == self.accelerations@[ident as int],
    {
        PointPhysData {
            pos: &self.positions[ident],
            vel: &self.velocities[ident],
            acc: &self.accelerations[ident],
        }
    }
}

impl EventType for PhysicsEventType {

}

impl Event for PhysicsEvent {
    type EventType = PhysicsEventType;

    fn get_type(&self) -> (kind: &PhysicsEventType)
        ensures
            *kind == self.event_type,
    {
        &self.event_type
    }
}

impl Reaction for PhysicsReaction {

}

impl Logic for PointPhysics {
    type Event = PhysicsEvent;

    type Reaction = PhysicsReaction;

    /// The index of a point.
    type Ident = usize;

    type IdentData<'a> = PointPhysDataMut<'a>;

    type DataIter<'a> = PtPhysicsDataIter<'a>;

    open spec fn wf(&self) -> bool {
        self.spec_wf()
    }

    open spec fn accepts(&self, reaction: &PhysicsReaction) -> bool {
        match *reaction {
            PhysicsReaction::SetPos(idx, _) => idx < self.len(),
            PhysicsReaction::SetVel(idx, _) => idx < self.len(),
            PhysicsReaction::SetAcc(idx, _) => idx < self.len(),
            PhysicsReaction::RemoveBody(idx) => idx < self.len(),
            PhysicsReaction::AddBody { .. } => true,
        }
    }

    open spec fn has(&self, ident: usize) -> bool {
        ident < self.len()
    }

    /// Applies a reaction to the points, at once.
    fn handle_predicate(&mut self, reaction: &PhysicsReaction)
        ensures
            final(self).events@ == old(self).events@,
            match *reaction {
                PhysicsReaction::SetPos(idx, pos) => {
                    &&& final(self).positions@ == old(self).positions@.update(idx as int, pos)
                    &&& final(self).velocities@ == old(self).velocities@
                    &&& final(self).accelerations@ == old(self).accelerations@
                },
                PhysicsReaction::SetVel(idx, vel) => {
                    &&& final(self).positions@ == old(self).positions@
                    &&& final(self).velocities@ == old(self).velocities@.update(idx as int, vel)
                    &&& final(self).accelerations@ == old(self).accelerations@
                },
                PhysicsReaction::SetAcc(idx, acc) => {
                    &&& final(self).positions@ == old(self).positions@
                    &&& final(self).velocities@ == old(self).velocities@
                    &&& final(self).accelerations@ == old(self).accelerations@.update(
                        idx as int,
                        acc,
                    )
                },
                PhysicsReaction::RemoveBody(idx) => {
                    &&& final(self).positions@ == old(self).positions@.remove(idx as int)
                    &&& final(self).velocities@ == old(self).velocities@.remove(idx as int)
                    &&& final(self).accelerations@ == old(self).accelerations@.remove(idx as int)
                },
                PhysicsReaction::AddBody { pos, vel, acc } => {
                    &&& final(self).positions@ == old(self).positions@.push(pos)
                    &&& final(self).velocities@ == old(self).velocities@.push(vel)
                    &&& final(self).accelerations@ == old(self).accelerations@.push(acc)
                },
            },
    {
        match reaction {
            PhysicsReaction::SetPos(idx, pos) => {
                self.positions.set(*idx, *pos);
            },
            PhysicsReaction::SetVel(idx, vel) => {
                self.velocities.set(*idx, *vel);
            },
            PhysicsReaction::SetAcc(idx, acc) => {
                self.accelerations.set(*idx, *acc);
            },
            PhysicsReaction::RemoveBody(idx) => {
                self.positions.remove(*idx);
                self.velocities.remove(*idx);
                self.accelerations.remove(*idx);
            },
            PhysicsReaction::AddBody { pos, vel, acc } => {
                self.add_physics_entity(*pos, *vel, *acc);
            },
        }
    }

    /// What the logic holds of point `ident`, to change in place.
    fn get_ident_data(&mut self, ident: usize) -> (data: PointPhysDataMut<'_>)
        ensures
            *data.pos == old(self).positions@[ident as int],
            *data.vel == old(self).velocities@[ident as int],
            *data.acc == old(self).accelerations@[ident as int],
            final(self).positions@ == old(self).positions@.update(ident as int, *final(data.pos)),
            final(self).velocities@ == old(self).velocities@.update(ident as int, *final(data.vel)),
            final(self).accelerations@ == old(self).accelerations@.update(
                ident as int,
                *final(data.acc),
            ),
            final(self).events@ == old(self).events@,
    {
        PointPhysDataMut {
            pos: &mut self.positions[ident],
            vel: &mut self.velocities[ident],
            acc: &mut self.accelerations[ident],
        }
    }

    /// A walk over the points, in the order of their indices.
    fn data_iter(&mut self) -> (iter: PtPhysicsDataIter<'_>)
        ensures
            iter.wf(),
            iter.position() == 0,
            iter.positions() == old(self).positions@,
            iter.velocities() == old(self).velocities@,
            iter.accelerations() == old(self).accelerations@,
            *final(self) == *old(self),
    {
        PtPhysicsDataIter { physics: &*self, count: 0 }
    }

    /// What happened in the last step.
    fn events(&self) -> (events: &[PhysicsEvent])
        ensures
            events@ == self.events@,
    {
        self.events.as_slice()
    }
}

/// A walk over the points of a physics logic.
pub struct PtPhysicsDataIter<'phys> {
    physics: &'phys PointPhysics,
    count: usize,
}

impl<'phys> PtPhysicsDataIter<'phys> {
    pub closed spec fn positions(&self) -> Seq<Vec2> {
        self.physics.positions@
    }

    pub closed spec fn velocities(&self) -> Seq<Vec2> {
        self.physics.velocities@
    }

    pub closed spec fn accelerations(&self) -> Seq<Vec2> {
        self.physics.accelerations@
    }

    /// The index of the point that comes next.
    pub closed spec fn position(&self) -> nat {
        self.count as nat
    }

    /// The walk has not gone past the last point, and the logic is well
    /// formed.
    pub closed spec fn wf(&self) -> bool {
        self.physics.spec_wf() && self.count <= self.physics.len()
    }

    /// The next point with its index, or `None` after the last one.
    pub fn next(&mut self) -> (item: Option<(usize, PointPhysData<'_>)>)
        requires
            old(self).wf(),
        ensures
            final(self).wf(),
            final(self).positions() == old(self).positions(),
            final(self).velocities() == old(self).velocities(),
            final(self).accelerations() == old(self).accelerations(),
            item.is_some() <==> old(self).position() < old(self).positions().len(),
            item.is_none() ==> final(self).position() == old(self).position(),
            item matches Some((idx, data)) ==> {
                &&& idx == old(self).position()
                &&& final(self).position() == idx + 1
                &&& *data.pos == old(self).positions()[idx as int]
                &&& *data.vel == old(self).velocities()[idx as int]
                &&& *data.acc == old(self).accelerations()[idx as int]
            },
    {
        if self.count == self.physics.positions.len() {
            None
        } else {
            self.count += 1;
            Some((self.count - 1, self.physics.get_ident_data(self.count - 1)))
        }
    }
}

/// A walk over the events of the last step of a physics logic.
pub struct PtPhysicsEventIter<'phys> {
    physics: &'phys PointPhysics,
    count: usize,
}

impl<'phys> PtPhysicsEventIter<'phys> {
    /// A walk over the events of `physics`, from the first.
    pub fn new(physics: &'phys PointPhysics) -> (iter: Self)
        ensures
            iter.wf(),
            iter.events() == physics.events@,
            iter.position() == 0,
    {
        PtPhysicsEventIter { physics, count: 0 }
    }

    /// The events that are walked over.
    pub closed spec fn events(&self) -> Seq<PhysicsEvent> {
        self.physics.events@
    }

    /// The index of the event that comes next.
    pub closed spec fn position(&self) -> nat {
        self.count as nat
    }

    /// The walk has not gone past the last event.
    pub closed spec fn wf(&self) -> bool {
        self.count <= self.physics.events@.len()
    }

    /// The next event, or `None` after the last one.
    pub fn next(&mut self) -> (item: Option<&PhysicsEvent>)
        requires
            old(self).wf(),
        ensures
            final(self).wf(),
            final(self).events() == old(self).events(),
            match item {
                Some(event) => {
                    &&& old(self).position() < old(self).events().len()
                    &&& *event == old(self).events()[old(self).position() as int]
                    &&& final(self).position() == old(self).position() + 1
                },
                None => {
                    &&& old(self).position() == old(self).events().len()
                    &&& final(self).position() == old(self).position()
                },
            },
    {
        if self.count == self.physics.events.len() {
            None
        } else {
            self.count += 1;
            Some(&self.physics.events[self.count - 1])
        }
    }
}

} // verus!
