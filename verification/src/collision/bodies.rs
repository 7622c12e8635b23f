//! What a step does, stated on sequences.
//!
//! `Bodies` is the engine's state as mathematics: four sequences of equal
//! length, one entry per body. Everything that `update` promises is said in
//! terms of the functions here.

use crate::collision::contact::{sort_by_depth, spec_restitution, Contact};
use crate::collision::ratio::{spec_get_speed_ratio, SpeedRatio};
use crate::geometry::{spec_find_displacement, spec_intersects, Vec2};
use vstd::math::abs;
use vstd::prelude::*;

verus! {

/// How a body takes part in collisions, and the caller's name for it.
#[derive(Copy, Debug)]
pub struct CollisionData<ID: Copy + Eq> {
    /// A solid body stops other solid bodies. One that is not solid is touched
    /// and reported, but neither pushes nor gets pushed.
    pub solid: bool,
    /// A fixed body is never moved by the engine, though it may move others.
    pub fixed: bool,
    /// The caller's token for this body. The engine stores it and hands it
    /// back, and never looks inside.
    pub id: ID,
}

impl<ID: Copy + Eq> Clone for CollisionData<ID> {
    fn clone(&self) -> (data: Self)
        ensures
            data == *self,
    {
        *self
    }
}

impl<ID: Copy + Eq> CollisionData<ID> {
    pub fn new(solid: bool, fixed: bool, id: ID) -> (data: Self)
        ensures
            data.solid == solid,
            data.fixed == fixed,
            data.id == id,
    {
        Self { solid, fixed, id }
    }
}

/// A change to the bodies of an engine, applied at once.
#[derive(Copy, PartialEq, Debug)]
pub enum CollisionReaction<ID> {
    /// Puts the center of a body at the given point.
    SetCenter(usize, Vec2),
    /// Puts the corner of least coordinates of a body at the given point,
    /// keeping its size.
    SetPos(usize, Vec2),
    /// Sets the half-extent of a body.
    SetSize(usize, Vec2),
    /// Sets the velocity of a body.
    SetVel(usize, Vec2),
    /// Sets whether a body is solid and whether it is fixed, in that order.
    SetMetadata(usize, bool, bool),
    /// Removes a body. The bodies after it move down by one index, so the
    /// contacts of the last step no longer name the right bodies.
    RemoveBody(usize),
    /// Adds a body behind the others.
    AddBody { center: Vec2, half_size: Vec2, vel: Vec2, solid: bool, fixed: bool, id: ID },
}

impl<ID: Copy> Clone for CollisionReaction<ID> {
    fn clone(&self) -> (reaction: Self)
        ensures
            reaction == *self,
    {
        *self
    }
}

/// The bodies of an engine: entry `k` of each sequence describes body `k`.
pub struct Bodies<ID: Copy + Eq> {
    pub centers: Seq<Vec2>,
    pub half_sizes: Seq<Vec2>,
    pub velocities: Seq<Vec2>,
    pub metadata: Seq<CollisionData<ID>>,
}

impl<ID: Copy + Eq> Bodies<ID> {
    /// The number of bodies.
    pub open spec fn len(self) -> nat {
        self.centers.len()
    }

    /// The four sequences have one length, which an index can hold; every
    /// center is in range, and every half-extent is non-negative and in range.
    pub open spec fn wf(self) -> bool {
        &&& self.centers.len() <= usize::MAX
        &&& self.half_sizes.len() == self.centers.len()
        &&& self.velocities.len() == self.centers.len()
        &&& self.metadata.len() == self.centers.len()
        &&& forall|k: int| 0 <= k < self.centers.len() ==> (#[trigger] self.centers[k]).in_range()
        &&& forall|k: int|
            0 <= k < self.half_sizes.len() ==> (#[trigger] self.half_sizes[k]).is_extent()
    }

    /// These bodies and one more behind them.
    pub open spec fn with_body(
        self,
        center: Vec2,
        half_size: Vec2,
        vel: Vec2,
        data: CollisionData<ID>,
    ) -> Bodies<ID> {
        Bodies {
            centers: self.centers.push(center),
            half_sizes: self.half_sizes.push(half_size),
            velocities: self.velocities.push(vel),
            metadata: self.metadata.push(data),
        }
    }

    /// These bodies and one more at index `idx`. Those from `idx` on move up by
    /// one.
    pub open spec fn with_body_at(
        self,
        idx: int,
        center: Vec2,
        half_size: Vec2,
        vel: Vec2,
        data: CollisionData<ID>,
    ) -> Bodies<ID> {
        Bodies {
            centers: self.centers.insert(idx, center),
            half_sizes: self.half_sizes.insert(idx, half_size),
            velocities: self.velocities.insert(idx, vel),
            metadata: self.metadata.insert(idx, data),
        }
    }

    /// These bodies without body `idx`. Those behind it move down by one.
    pub open spec fn without(self, idx: int) -> Bodies<ID> {
        Bodies {
            centers: self.centers.remove(idx),
            half_sizes: self.half_sizes.remove(idx),
            velocities: self.velocities.remove(idx),
            metadata: self.metadata.remove(idx),
        }
    }

    /// No bodies at all.
    pub open spec fn none() -> Bodies<ID> {
        Bodies {
            centers: Seq::empty(),
            half_sizes: Seq::empty(),
            velocities: Seq::empty(),
            metadata: Seq::empty(),
        }
    }

    /// The reaction can be applied: the body it names exists, and what it sets
    /// is in range.
    pub open spec fn accepts(self, reaction: CollisionReaction<ID>) -> bool {
        match reaction {
            CollisionReaction::SetCenter(idx, center) => idx < self.len() && center.in_range(),
            CollisionReaction::SetPos(idx, pos) => idx < self.len() && -crate::geometry::LIMIT
                <= pos.x + self.half_sizes[idx as int].x <= crate::geometry::LIMIT
                && -crate::geometry::LIMIT <= pos.y + self.half_sizes[idx as int].y
                <= crate::geometry::LIMIT,
            CollisionReaction::SetSize(idx, half_size) => idx < self.len() && half_size.is_extent(),
            CollisionReaction::SetVel(idx, _) => idx < self.len(),
            CollisionReaction::SetMetadata(idx, _, _) => idx < self.len(),
            CollisionReaction::RemoveBody(idx) => idx < self.len(),
            CollisionReaction::AddBody { center, half_size, .. } => center.in_range()
                && half_size.is_extent(),
        }
    }

    /// The bodies once the reaction has been applied.
    pub open spec fn after(self, reaction: CollisionReaction<ID>) -> Bodies<ID> {
        match reaction {
            CollisionReaction::SetCenter(idx, center) => Bodies {
                centers: self.centers.update(idx as int, center),
                ..self
            },
            CollisionReaction::SetPos(idx, pos) => Bodies {
                centers: self.centers.update(
                    idx as int,
                    Vec2 {
                        x: (pos.x + self.half_sizes[idx as int].x) as i64,
                        y: (pos.y + self.half_sizes[idx as int].y) as i64,
                    },
                ),
                ..self
            },
            CollisionReaction::SetSize(idx, half_size) => Bodies {
                half_sizes: self.half_sizes.update(idx as int, half_size),
                ..self
            },
            CollisionReaction::SetVel(idx, vel) => Bodies {
                velocities: self.velocities.update(idx as int, vel),
                ..self
            },
            CollisionReaction::SetMetadata(idx, solid, fixed) => Bodies {
                metadata: self.metadata.update(
                    idx as int,
                    CollisionData { solid, fixed, id: self.metadata[idx as int].id },
                ),
                ..self
            },
            CollisionReaction::RemoveBody(idx) => self.without(idx as int),
            CollisionReaction::AddBody { center, half_size, vel, solid, fixed, id } => {
                self.with_body(center, half_size, vel, CollisionData { solid, fixed, id })
            },
        }
    }

    /// Along which axis bodies `i` and `j` are pushed apart as they now stand:
    /// `(1, 0)` for `x`, `(0, 1)` for `y`, and `(0, 0)` where they sit as deep in
    /// each other on both. Where exactly one of the two is fixed, the depth is
    /// measured from the other one.
    pub open spec fn sides_touched(self, i: int, j: int) -> Vec2 {
        let (a, b) = if self.metadata[i].fixed && !self.metadata[j].fixed {
            (j, i)
        } else {
            (i, j)
        };
        let d = self.depth(a, b);
        if abs(d.x as int) < abs(d.y as int) {
            Vec2 { x: 1, y: 0 }
        } else if abs(d.x as int) > abs(d.y as int) {
            Vec2 { x: 0, y: 1 }
        } else {
            Vec2 { x: 0, y: 0 }
        }
    }

    /// The index of the first body, from `from` on, that the caller calls `id`;
    /// the number of bodies where there is none.
    pub open spec fn first_with_id(self, id: ID, from: int) -> int
        decreases self.metadata.len() - from,
    {
        if from < 0 || from >= self.metadata.len() {
            self.metadata.len() as int
        } else if self.metadata[from].id == id {
            from
        } else {
            self.first_with_id(id, from + 1)
        }
    }

    /// Bodies `i` and `j` overlap.
    pub open spec fn touching(self, i: int, j: int) -> bool {
        spec_intersects(self.centers[i], self.half_sizes[i], self.centers[j], self.half_sizes[j])
    }

    /// How deep body `i` sits in body `j`.
    pub open spec fn depth(self, i: int, j: int) -> Vec2 {
        spec_find_displacement(
            self.centers[i],
            self.half_sizes[i],
            self.centers[j],
            self.half_sizes[j],
        )
    }

    /// The pair, `i` first, is one that the engine pushes apart: both bodies are
    /// solid and the first can be moved.
    pub open spec fn responds(self, i: int, j: int) -> bool {
        self.metadata[i].solid && self.metadata[j].solid && !self.metadata[i].fixed
    }

    /// The contact that is recorded for the overlapping pair `i < j`: with the
    /// unfixed body first where exactly one is fixed, and with the measured depth
    /// where the pair responds.
    pub open spec fn contact_between(self, i: int, j: int) -> Contact {
        let (a, b) = if self.metadata[i].fixed && !self.metadata[j].fixed {
            (j, i)
        } else {
            (i, j)
        };
        Contact {
            i: a as usize,
            j: b as usize,
            displacement: if self.responds(a, b) {
                self.depth(a, b)
            } else {
                Vec2::spec_zero()
            },
        }
    }

    /// The contacts of body `i` with the bodies `i + 1 .. j`, in that order.
    pub open spec fn row_contacts(self, i: int, j: int) -> Seq<Contact>
        decreases j - i,
    {
        if j <= i + 1 {
            Seq::empty()
        } else if self.touching(i, j - 1) {
            self.row_contacts(i, j - 1).push(self.contact_between(i, j - 1))
        } else {
            self.row_contacts(i, j - 1)
        }
    }

    /// The contacts of the bodies `0 .. i`, each with the bodies after it: every
    /// overlapping pair once, ordered by its first and then its second body.
    pub open spec fn detected_contacts(self, i: int) -> Seq<Contact>
        decreases i,
    {
        if i <= 0 {
            Seq::empty()
        } else {
            self.detected_contacts(i - 1) + self.row_contacts(i - 1, self.len() as int)
        }
    }

    /// Contact `c` as it stands once it has been looked at again: with the depth
    /// measured anew where the pair responds and still overlaps.
    pub open spec fn measured(self, c: Contact) -> Contact {
        if self.responds(c.i as int, c.j as int) && self.touching(c.i as int, c.j as int) {
            Contact { i: c.i, j: c.j, displacement: self.depth(c.i as int, c.j as int) }
        } else {
            c
        }
    }

    /// The share of a correction that falls to the first body of `c`: all of it
    /// where the second is fixed, and else a share by the two speeds.
    pub open spec fn share(self, c: Contact) -> SpeedRatio {
        if self.metadata[c.j as int].fixed {
            SpeedRatio::spec_one()
        } else {
            spec_get_speed_ratio(self.velocities[c.i as int], self.velocities[c.j as int])
        }
    }

    /// How far the first body of `c` is moved: its share of the correction that
    /// the present depth asks for.
    pub open spec fn push_first(self, c: Contact) -> Vec2 {
        let r = spec_restitution(self.depth(c.i as int, c.j as int));
        let ratio = self.share(c);
        Vec2 { x: ratio.x.spec_of(r.x as int) as i64, y: ratio.y.spec_of(r.y as int) as i64 }
    }

    /// How far the second body of `c` is moved: the rest of the correction, the
    /// other way.
    pub open spec fn push_second(self, c: Contact) -> Vec2 {
        let r = spec_restitution(self.depth(c.i as int, c.j as int));
        let first = self.push_first(c);
        Vec2 { x: (first.x - r.x) as i64, y: (first.y - r.y) as i64 }
    }

    /// The bodies after contact `c` has been resolved.
    ///
    /// Nothing moves unless the pair responds and overlaps as the bodies now
    /// stand. Then the two are moved apart along the axis of lesser depth.
    pub open spec fn resolve(self, c: Contact) -> Bodies<ID> {
        let i = c.i as int;
        let j = c.j as int;
        if self.responds(i, j) && self.touching(i, j) {
            let first = self.push_first(c);
            let second = self.push_second(c);
            Bodies {
                centers: self.centers.update(
                    i,
                    self.centers[i].spec_moved(first.x as int, first.y as int),
                ).update(j, self.centers[j].spec_moved(second.x as int, second.y as int)),
                ..self
            }
        } else {
            self
        }
    }

    /// The bodies after the first `k` contacts of `cs` have been resolved, one
    /// after the other.
    pub open spec fn settle(self, cs: Seq<Contact>, k: int) -> Bodies<ID>
        decreases k,
    {
        if k <= 0 {
            self
        } else {
            self.settle(cs, k - 1).resolve(cs[k - 1])
        }
    }

    /// The contacts of a step in the order in which it resolves them: every
    /// overlapping pair, deepest first.
    pub open spec fn ordered_contacts(self) -> Seq<Contact> {
        sort_by_depth(self.detected_contacts(self.len() as int))
    }

    /// The bodies after a whole step.
    pub open spec fn step(self) -> Bodies<ID> {
        self.settle(self.ordered_contacts(), self.ordered_contacts().len() as int)
    }

    /// The contacts that a step leaves behind: those of `ordered_contacts`, each
    /// as it was measured when its turn came.
    pub open spec fn step_contacts(self) -> Seq<Contact> {
        let cs = self.ordered_contacts();
        Seq::new(cs.len(), |k: int| self.settle(cs, k).measured(cs[k]))
    }
}

} // verus!
