//! The collision engine for axis-aligned boxes.

use crate::collision::bodies::{Bodies, CollisionData, CollisionReaction};
use crate::collision::contact::{
    lemma_sort_by_depth, sort_contacts, CollisionEventType, Contact,
};
use crate::collision::laws::{
    lemma_ordered_contacts, lemma_settle_frame, lemma_step_contacts_shape,
    lemma_step_keeps_fixed, lemma_step_keeps_untouched,
};
use crate::collision::ratio::{get_speed_ratio, SpeedRatio};
use crate::geometry::{find_displacement, intersects, magnitude, Vec2, LIMIT};
use crate::graph::tells_apart;
use crate::{Event, EventType, Logic, Reaction};
use vstd::prelude::*;

verus! {

/// A collision logic for axis-aligned bounding boxes.
///
/// The bodies live in four vectors that run in parallel: entry `k` of each
/// describes body `k`. An index names a body only until a body before it is
/// removed; to know a body across steps, go by the `id` in its metadata.
pub struct AabbCollision<ID: Copy + Eq> {
    /// The center of each box.
    pub centers: Vec<Vec2>,
    /// Half the width and half the height of each box.
    pub half_sizes: Vec<Vec2>,
    /// The velocity of each body.
    pub velocities: Vec<Vec2>,
    /// How each body takes part in collisions.
    pub metadata: Vec<CollisionData<ID>>,
    /// The pairs that touched in the last step. Its indices do not run in
    /// parallel with those of the vectors above.
    contacts: Vec<Contact>,
}

/// One body of an engine, to read.
pub struct AabbColData<'data, ID: Copy + Eq> {
    pub center: &'data Vec2,
    pub half_size: &'data Vec2,
    pub vel: &'data Vec2,
    pub meta: &'data CollisionData<ID>,
}

/// One body of an engine, to change in place.
pub struct AabbColDataMut<'data, ID: Copy + Eq> {
    pub center: &'data mut Vec2,
    pub half_size: &'data mut Vec2,
    pub vel: &'data mut Vec2,
    pub meta: &'data mut CollisionData<ID>,
}

impl<ID: Copy + Eq> AabbCollision<ID> {
    /// The bodies, as sequences: what the four vectors hold.
    pub closed spec fn bodies(&self) -> Bodies<ID> {
        Bodies {
            centers: self.centers@,
            half_sizes: self.half_sizes@,
            velocities: self.velocities@,
            metadata: self.metadata@,
        }
    }

    /// The contacts of the last step.
    pub closed spec fn contacts(&self) -> Seq<Contact> {
        self.contacts@
    }

    /// The engine is well formed when its bodies are: see `Bodies::wf`.
    pub open spec fn wf(&self) -> bool {
        self.bodies().wf()
    }

    /// An engine without bodies.
    pub fn new() -> (engine: Self)
        ensures
            engine.wf(),
            engine.bodies().len() == 0,
            engine.contacts() == Seq::<Contact>::empty(),
    {
        Self {
            centers: Vec::new(),
            half_sizes: Vec::new(),
            velocities: Vec::new(),
            metadata: Vec::new(),
            contacts: Vec::new(),
        }
    }

    /// Tests `wf`.
    pub fn is_wf(&self) -> (b: bool)
        ensures
            b == self.wf(),
    {
        let n: usize = self.centers.len();
        if self.half_sizes.len() != n || self.velocities.len() != n || self.metadata.len() != n {
            return false;
        }
        let mut k: usize = 0;
        while k < n
            invariant
                k <= n,
                n == self.centers@.len(),
                n == self.half_sizes@.len(),
                forall|m: int| 0 <= m < k ==> (#[trigger] self.centers@[m]).in_range(),
                forall|m: int| 0 <= m < k ==> (#[trigger] self.half_sizes@[m]).is_extent(),
            decreases n - k,
        {
            if !self.centers[k].fits() || !self.half_sizes[k].fits_extent() {
                return false;
            }
            k += 1;
        }
        true
    }

    /// The contact to record for the overlapping pair `i < j`.
    fn contact_between(&self, i: usize, j: usize) -> (c: Contact)
        requires
            self.wf(),
            i < j < self.centers@.len(),
        ensures
            c == self.bodies().contact_between(i as int, j as int),
    {
        let (a, b) = if self.metadata[i].fixed && !self.metadata[j].fixed {
            (j, i)
        } else {
            (i, j)
        };
        let displacement = if self.metadata[a].solid && self.metadata[b].solid
            && !self.metadata[a].fixed {
            find_displacement(
                self.centers[a],
                self.half_sizes[a],
                self.centers[b],
                self.half_sizes[b],
            )
        } else {
            Vec2::zero()
        };
        Contact { i: a, j: b, displacement }
    }

    /// Finds every overlapping pair and records a contact for it.
    fn detect(&mut self)
        requires
            old(self).wf(),
        ensures
            final(self).bodies() == old(self).bodies(),
            final(self).contacts() == old(self).bodies().detected_contacts(
                old(self).bodies().len() as int,
            ),
    {
        let ghost b = self.bodies();
        let n: usize = self.centers.len();
        self.contacts.clear();
        let mut i: usize = 0;
        while i < n
            invariant
                i <= n,
                n == b.len(),
                b.wf(),
                self.bodies() == b,
                self.contacts@ == b.detected_contacts(i as int),
            decreases n - i,
        {
            let mut j: usize = i + 1;
            while j < n
                invariant
                    i < j <= n,
                    n == b.len(),
                    b.wf(),
                    self.bodies() == b,
                    self.contacts@ == b.detected_contacts(i as int) + b.row_contacts(
                        i as int,
                        j as int,
                    ),
                decreases n - j,
            {
                if intersects(
                    self.centers[i],
                    self.half_sizes[i],
                    self.centers[j],
                    self.half_sizes[j],
                ) {
                    let c = self.contact_between(i, j);
                    self.contacts.push(c);
                }
                j += 1;
                assert(self.contacts@ =~= b.detected_contacts(i as int) + b.row_contacts(
                    i as int,
                    j as int,
                ));
            }
            i += 1;
        }
    }

    /// Adds a body from the center and the half-extent of its box. `solid` says
    /// whether it stops other bodies, `fixed` whether the engine may move it. The
    /// new body gets the index that was the number of bodies before.
    pub fn add_collision_entity(
        &mut self,
        center: Vec2,
        half_size: Vec2,
        vel: Vec2,
        solid: bool,
        fixed: bool,
        id: ID,
    )
        requires
            old(self).wf(),
            center.in_range(),
            half_size.is_extent(),
        ensures
            final(self).wf(),
            final(self).bodies() == old(self).bodies().with_body(
                center,
                half_size,
                vel,
                CollisionData { solid, fixed, id },
            ),
            final(self).contacts() == old(self).contacts(),
    {
        self.centers.push(center);
        self.half_sizes.push(half_size);
        self.velocities.push(vel);
        self.metadata.push(CollisionData { solid, fixed, id });
        let count: usize = self.centers.len();
    }

    /// Puts a body in at index `idx`. The bodies from that index on move up by
    /// one, so the contacts of the last step no longer name the right bodies.
    pub fn insert_collision_entity(
        &mut self,
        idx: usize,
        center: Vec2,
        half_size: Vec2,
        vel: Vec2,
        solid: bool,
        fixed: bool,
        id: ID,
    )
        requires
            old(self).wf(),
            idx <= old(self).bodies().len(),
            center.in_range(),
            half_size.is_extent(),
        ensures
            final(self).wf(),
            final(self).bodies() == old(self).bodies().with_body_at(
                idx as int,
                center,
                half_size,
                vel,
                CollisionData { solid, fixed, id },
            ),
            final(self).contacts() == old(self).contacts(),
    {
        self.centers.insert(idx, center);
        self.half_sizes.insert(idx, half_size);
        self.velocities.insert(idx, vel);
        self.metadata.insert(idx, CollisionData { solid, fixed, id });
        let count: usize = self.centers.len();
    }

    /// Adds a body from the corner of least coordinates of its box and from its
    /// width and height. The half-extent is half the size, rounded down, and the
    /// center is the corner moved by the half-extent.
    pub fn add_entity_as_xywh(
        &mut self,
        pos: Vec2,
        size: Vec2,
        vel: Vec2,
        solid: bool,
        fixed: bool,
        id: ID,
    )
        requires
            old(self).wf(),
            size.is_extent(),
            -LIMIT <= pos.x + size.x / 2 <= LIMIT,
            -LIMIT <= pos.y + size.y / 2 <= LIMIT,
        ensures
            final(self).wf(),
            final(self).bodies() == old(self).bodies().with_body(
                Vec2 { x: (pos.x + size.x / 2) as i64, y: (pos.y + size.y / 2) as i64 },
                Vec2 { x: (size.x / 2) as i64, y: (size.y / 2) as i64 },
                vel,
                CollisionData { solid, fixed, id },
            ),
            final(self).contacts() == old(self).contacts(),
    {
        let hs = Vec2 { x: size.x / 2, y: size.y / 2 };
        let center = Vec2 { x: pos.x + hs.x, y: pos.y + hs.y };
        self.add_collision_entity(center, hs, vel, solid, fixed, id);
    }

    /// Along which axis bodies `i` and `j` are pushed apart, as they stand now:
    /// `(1, 0)` for `x`, `(0, 1)` for `y`, `(0, 0)` for neither.
    ///
    /// The answer is worked out afresh from the present centers, not taken from
    /// the contacts of the last step.
    pub fn sides_touched(&self, i: usize, j: usize) -> (side: Vec2)
        requires
            self.wf(),
            i < self.bodies().len(),
            j < self.bodies().len(),
        ensures
            side == self.bodies().sides_touched(i as int, j as int),
    {
        let should_swap = self.metadata[i].fixed && !self.metadata[j].fixed;
        let (a, b) = if should_swap {
            (j, i)
        } else {
            (i, j)
        };
        let displacement = find_displacement(
            self.centers[a],
            self.half_sizes[a],
            self.centers[b],
            self.half_sizes[b],
        );
        let depth_x: u64 = magnitude(displacement.x);
        let depth_y: u64 = magnitude(displacement.y);
        if depth_x < depth_y {
            Vec2 { x: 1, y: 0 }
        } else if depth_x > depth_y {
            Vec2 { x: 0, y: 1 }
        } else {
            Vec2 { x: 0, y: 0 }
        }
    }

    /// Removes every body. The contacts of the last step are kept as they are.
    pub fn clear(&mut self)
        ensures
            final(self).wf(),
            final(self).bodies() == Bodies::<ID>::none(),
            final(self).contacts() == old(self).contacts(),
    {
        self.centers.clear();
        self.half_sizes.clear();
        self.velocities.clear();
        self.metadata.clear();
    }

    /// The index of the body that the caller calls `id`: of the first one,
    /// should there be several. `None` where no body is called so.
    pub fn index_of(&self, id: ID) -> (index: Option<usize>)
        requires
            self.wf(),
            tells_apart::<ID>(),
        ensures
            match index {
                Some(k) => k < self.bodies().len() && k == self.bodies().first_with_id(id, 0)
                    && self.bodies().metadata[k as int].id == id,
                None => self.bodies().first_with_id(id, 0) == self.bodies().len(),
            },
    {
        let mut k: usize = 0;
        while k < self.metadata.len()
            invariant
                k <= self.metadata@.len(),
                self.wf(),
                tells_apart::<ID>(),
                self.bodies().first_with_id(id, 0) == self.bodies().first_with_id(id, k as int),
            decreases self.metadata@.len() - k,
        {
            if self.metadata[k].id == id {
                return Some(k);
            }
            k += 1;
        }
        None
    }

    /// The callers' tokens of the two bodies of a contact.
    pub fn get_ids(&self, contact: &Contact) -> (ids: (ID, ID))
        requires
            self.wf(),
            contact.i < self.bodies().len(),
            contact.j < self.bodies().len(),
        ensures
            ids.0 == self.bodies().metadata[contact.i as int].id,
            ids.1 == self.bodies().metadata[contact.j as int].id,
    {
        (self.metadata[contact.i].id, self.metadata[contact.j].id)
    }

    /// What the engine holds of body `ident`.
    pub fn body(&self, ident: usize) -> (data: AabbColData<'_, ID>)
        requires
            self.wf(),
            ident < self.bodies().len(),
        ensures
            *data.center == self.bodies().centers[ident as int],
            *data.half_size == self.bodies().half_sizes[ident as int],
            *data.vel == self.bodies().velocities[ident as int],
            *data.meta == self.bodies().metadata[ident as int],
    {
        AabbColData {
            center: &self.centers[ident],
            half_size: &self.half_sizes[ident],
            vel: &self.velocities[ident],
            meta: &self.metadata[ident],
        }
    }

    /// What the engine holds of body `ident`, to be changed in place.
    pub fn get_ident_data_mut(&mut self, ident: usize) -> (data: AabbColDataMut<'_, ID>)
        requires
            old(self).wf(),
            ident < old(self).bodies().len(),
        ensures
            *data.center == old(self).bodies().centers[ident as int],
            *data.half_size == old(self).bodies().half_sizes[ident as int],
            *data.vel == old(self).bodies().velocities[ident as int],
            *data.meta == old(self).bodies().metadata[ident as int],
            final(self).bodies().centers == old(self).bodies().centers.update(
                ident as int,
                *final(data.center),
            ),
            final(self).bodies().half_sizes == old(self).bodies().half_sizes.update(
                ident as int,
                *final(data.half_size),
            ),
            final(self).bodies().velocities == old(self).bodies().velocities.update(
                ident as int,
                *final(data.vel),
            ),
            final(self).bodies().metadata == old(self).bodies().metadata.update(
                ident as int,
                *final(data.meta),
            ),
            final(self).contacts() == old(self).contacts(),
    {
        AabbColDataMut {
            center: &mut self.centers[ident],
            half_size: &mut self.half_sizes[ident],
            vel: &mut self.velocities[ident],
            meta: &mut self.metadata[ident],
        }
    }

    /// Checks collisions and restitutes them: finds every overlapping pair,
    /// orders the pairs deepest first, and moves each solid pair apart in turn.
    ///
    /// The contacts found are kept for `events`; those of the step before are
    /// discarded.
    pub fn update(&mut self)
        requires
            old(self).wf(),
        ensures
            final(self).wf(),
            final(self).bodies() == old(self).bodies().step(),
            final(self).contacts() == old(self).bodies().step_contacts(),
            final(self).bodies().len() == old(self).bodies().len(),
            final(self).bodies().half_sizes == old(self).bodies().half_sizes,
            final(self).bodies().velocities == old(self).bodies().velocities,
            final(self).bodies().metadata == old(self).bodies().metadata,
            forall|m: int|
                0 <= m < old(self).bodies().len() && old(self).bodies().metadata[m].fixed
                    ==> #[trigger] final(self).bodies().centers[m] == old(self).bodies().centers[m],
            forall|m: int|
                0 <= m < old(self).bodies().len() && old(self).bodies().touches_none(m)
                    ==> #[trigger] final(self).bodies().centers[m] == old(self).bodies().centers[m],
            forall|k: int|
                0 <= k < final(self).contacts().len() ==> final(self).bodies().is_contact(
                    #[trigger] final(self).contacts()[k],
                ),
    {
        let ghost b = self.bodies();
        self.detect();
        sort_contacts(&mut self.contacts);
        let ghost cs = self.contacts@;
        proof {
            lemma_ordered_contacts(b);
            lemma_sort_by_depth(b.detected_contacts(b.len() as int));
            assert(cs == b.ordered_contacts());
            assert forall|m: int| 0 <= m < cs.len() implies b.has_pair(#[trigger] cs[m]) by {
                assert(b.has_pair(b.ordered_contacts()[m]));
            }
        }
        let n: usize = self.contacts.len();
        let mut k: usize = 0;
        while k < n
            invariant
                k <= n,
                n == cs.len(),
                cs == b.ordered_contacts(),
                b.wf(),
                forall|m: int| 0 <= m < cs.len() ==> b.has_pair(#[trigger] cs[m]),
                self.wf(),
                self.bodies() == b.settle(cs, k as int),
                self.contacts@.len() == n,
                forall|m: int|
                    0 <= m < k ==> #[trigger] self.contacts@[m] == b.settle(cs, m).measured(cs[m]),
                forall|m: int| k <= m < n ==> #[trigger] self.contacts@[m] == cs[m],
            decreases n - k,
        {
            proof {
                lemma_settle_frame(b, cs, k as int);
            }
            self.resolve(k);
            k += 1;
        }
        assert(self.contacts@ =~= b.step_contacts());
        proof {
            lemma_settle_frame(b, cs, n as int);
            assert forall|m: int| 0 <= m < b.len() && b.metadata[m].fixed implies
                #[trigger] self.bodies().centers[m] == b.centers[m] by {
                lemma_step_keeps_fixed(b, m);
            }
            assert forall|m: int| 0 <= m < b.len() && b.touches_none(m) implies
                #[trigger] self.bodies().centers[m] == b.centers[m] by {
                lemma_step_keeps_untouched(b, m);
            }
            assert forall|k: int| 0 <= k < self.contacts@.len() implies self.bodies().is_contact(
                #[trigger] self.contacts@[k],
            ) by {
                lemma_step_contacts_shape(b, k);
            }
        }
    }

    /// Resolves contact `k` of the list: measures the pair again and, where it
    /// responds and still overlaps, moves the two bodies apart.
    fn resolve(&mut self, k: usize)
        requires
            old(self).wf(),
            k < old(self).contacts().len(),
            old(self).contacts()[k as int].i < old(self).bodies().len(),
            old(self).contacts()[k as int].j < old(self).bodies().len(),
            old(self).contacts()[k as int].i != old(self).contacts()[k as int].j,
        ensures
            final(self).wf(),
            final(self).bodies() == old(self).bodies().resolve(old(self).contacts()[k as int]),
            final(self).contacts() == old(self).contacts().update(
                k as int,
                old(self).bodies().measured(old(self).contacts()[k as int]),
            ),
    {
        let i: usize = self.contacts[k].i;
        let j: usize = self.contacts[k].j;
        if !self.metadata[i].solid || !self.metadata[j].solid || self.metadata[i].fixed {
            assert(self.contacts@ =~= old(self).contacts@.update(k as int, self.contacts@[k as int]));
            return ;
        }
        if intersects(self.centers[i], self.half_sizes[i], self.centers[j], self.half_sizes[j]) {
            let displacement = find_displacement(
                self.centers[i],
                self.half_sizes[i],
                self.centers[j],
                self.half_sizes[j],
            );
            let contact = Contact { i, j, displacement };
            self.contacts.set(k, contact);
            let disp = contact.get_restitution();
            let speed_ratio = if !self.metadata[j].fixed {
                get_speed_ratio(self.velocities[i], self.velocities[j])
            } else {
                SpeedRatio::one()
            };
            let first = Vec2 { x: speed_ratio.x.of(disp.x), y: speed_ratio.y.of(disp.y) };
            let second = Vec2 { x: first.x - disp.x, y: first.y - disp.y };
            let center_i = self.centers[i].moved(first.x, first.y);
            self.centers.set(i, center_i);
            let center_j = self.centers[j].moved(second.x, second.y);
            self.centers.set(j, center_j);
        } else {
            assert(self.contacts@ =~= old(self).contacts@.update(k as int, self.contacts@[k as int]));
        }
    }
}

impl<ID: Copy + Eq + 'static> Logic for AabbCollision<ID> {
    type Event = Contact;

    type Reaction = CollisionReaction<ID>;

    type Ident = usize;

    type IdentData<'logic> = AabbColData<'logic, ID>;

    type DataIter<'logic> = ColDataIter<'logic, ID>;

    open spec fn wf(&self) -> bool {
        self.bodies().wf()
    }

    open spec fn accepts(&self, reaction: &CollisionReaction<ID>) -> bool {
        self.bodies().accepts(*reaction)
    }

    open spec fn has(&self, ident: usize) -> bool {
        ident < self.bodies().len()
    }

    /// Applies a reaction to the bodies, at once.
    fn handle_predicate(&mut self, reaction: &CollisionReaction<ID>)
        ensures
            final(self).bodies() == old(self).bodies().after(*reaction),
            final(self).contacts() == old(self).contacts(),
    {
        match reaction {
            CollisionReaction::SetCenter(idx, center) => {
                self.centers.set(*idx, *center);
            },
            CollisionReaction::SetPos(idx, pos) => {
                let half_size = self.half_sizes[*idx];
                self.centers.set(*idx, Vec2 { x: pos.x + half_size.x, y: pos.y + half_size.y });
            },
            CollisionReaction::SetSize(idx, half_size) => {
                self.half_sizes.set(*idx, *half_size);
            },
            CollisionReaction::SetVel(idx, vel) => {
                self.velocities.set(*idx, *vel);
            },
            CollisionReaction::SetMetadata(idx, solid, fixed) => {
                let id = self.metadata[*idx].id;
                self.metadata.set(*idx, CollisionData { solid: *solid, fixed: *fixed, id });
            },
            CollisionReaction::RemoveBody(idx) => {
                self.centers.remove(*idx);
                self.half_sizes.remove(*idx);
                self.metadata.remove(*idx);
                self.velocities.remove(*idx);
            },
            CollisionReaction::AddBody { center, half_size, vel, solid, fixed, id } => {
                self.add_collision_entity(*center, *half_size, *vel, *solid, *fixed, *id);
            },
        }
    }

    /// What the engine holds of body `ident`.
    fn get_ident_data(&mut self, ident: usize) -> (data: AabbColData<'_, ID>)
        ensures
            *data.center == old(self).bodies().centers[ident as int],
            *data.half_size == old(self).bodies().half_sizes[ident as int],
            *data.vel == old(self).bodies().velocities[ident as int],
            *data.meta == old(self).bodies().metadata[ident as int],
            final(self).bodies() == old(self).bodies(),
            final(self).contacts() == old(self).contacts(),
    {
        self.body(ident)
    }

    /// A walk over the bodies, in the order of their indices.
    fn data_iter(&mut self) -> (iter: ColDataIter<'_, ID>)
        ensures
            iter.wf(),
            iter.bodies() == old(self).bodies(),
            iter.position() == 0,
            final(self).bodies() == old(self).bodies(),
            final(self).contacts() == old(self).contacts(),
    {
        ColDataIter { collision: &*self, count: 0 }
    }

    /// The contacts of the last step, in the order in which it resolved them.
    fn events(&self) -> (contacts: &[Contact])
        ensures
            contacts@ == self.contacts(),
    {
        self.contacts.as_slice()
    }
}

/// A walk over the bodies of an engine, in the order of their indices.
pub struct ColDataIter<'col, ID: Copy + Eq> {
    collision: &'col AabbCollision<ID>,
    count: usize,
}

impl<'col, ID: Copy + Eq + 'static> ColDataIter<'col, ID> {
    /// The bodies that are walked over.
    pub closed spec fn bodies(&self) -> Bodies<ID> {
        self.collision.bodies()
    }

    /// The index of the body that comes next.
    pub closed spec fn position(&self) -> nat {
        self.count as nat
    }

    /// The walk has not gone past the last body, and the bodies are well
    /// formed.
    pub closed spec fn wf(&self) -> bool {
        self.collision.wf() && self.count <= self.collision.bodies().len()
    }

    /// The next body with its index, or `None` after the last one.
    pub fn next(&mut self) -> (item: Option<(usize, AabbColData<'_, ID>)>)
        requires
            old(self).wf(),
        ensures
            final(self).wf(),
            final(self).bodies() == old(self).bodies(),
            item.is_some() <==> old(self).position() < old(self).bodies().len(),
            item.is_none() ==> final(self).position() == old(self).position(),
            item matches Some((idx, data)) ==> {
                &&& idx == old(self).position()
                &&& final(self).position() == idx + 1
                &&& *data.center == old(self).bodies().centers[idx as int]
                &&& *data.half_size == old(self).bodies().half_sizes[idx as int]
                &&& *data.vel == old(self).bodies().velocities[idx as int]
                &&& *data.meta == old(self).bodies().metadata[idx as int]
            },
    {
        if self.count == self.collision.centers.len() {
            None
        } else {
            self.count += 1;
            Some((self.count - 1, self.collision.body(self.count - 1)))
        }
    }
}

impl EventType for CollisionEventType {

}

impl<ID> Reaction for CollisionReaction<ID> {

}

impl Event for Contact {
    type EventType = CollisionEventType;

    fn get_type(&self) -> (kind: &CollisionEventType)
        ensures
            *kind == CollisionEventType::Touching,
    {
        &CollisionEventType::Touching
    }
}

} // verus!
