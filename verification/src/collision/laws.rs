//! What holds of every step.

use crate::collision::bodies::{Bodies, CollisionData};
use crate::collision::contact::{
    lemma_sort_by_depth, spec_restitution, Contact,
};
use crate::collision::ratio::{
    lemma_equal_speeds_halve, lemma_share_of_nothing, lemma_whole_share,
};
use crate::geometry::Vec2;
use vstd::math::abs;
use vstd::prelude::*;

verus! {

impl<ID: Copy + Eq> Bodies<ID> {
    /// `c` names two different bodies.
    pub open spec fn has_pair(self, c: Contact) -> bool {
        c.i < self.len() && c.j < self.len() && c.i != c.j
    }

    /// Body `m` overlaps no other body.
    pub open spec fn touches_none(self, m: int) -> bool {
        forall|k: int| 0 <= k < self.len() && k != m ==> !#[trigger] self.touching(m, k)
    }

    /// `c` is the contact of the overlapping pair `i < j`.
    pub open spec fn is_contact_of(self, c: Contact, i: int, j: int) -> bool {
        0 <= i < j < self.len() && self.touching(i, j) && c == self.contact_between(i, j)
    }

    /// `c` has the shape of a contact: it names two different bodies; where
    /// one of the two is fixed and the other is not, the unfixed one comes
    /// first, and else the one with the lower index does; and it carries no
    /// displacement unless both bodies are solid and the first is not fixed.
    pub open spec fn is_contact(self, c: Contact) -> bool {
        &&& self.has_pair(c)
        &&& self.metadata[c.i as int].fixed == self.metadata[c.j as int].fixed ==> c.i < c.j
        &&& self.metadata[c.i as int].fixed != self.metadata[c.j as int].fixed
            ==> !self.metadata[c.i as int].fixed
        &&& !self.responds(c.i as int, c.j as int) ==> c.displacement == Vec2::spec_zero()
    }

    /// `c` is the contact of some overlapping pair.
    pub open spec fn is_detected(self, c: Contact) -> bool {
        exists|i: int, j: int| self.is_contact_of(c, i, j)
    }
}

/// The contacts of one row are those of the overlapping pairs of that row.
pub proof fn lemma_row_contacts<ID: Copy + Eq>(b: Bodies<ID>, i: int, j: int)
    requires
        0 <= i < j <= b.len(),
    ensures
        forall|k: int|
            0 <= k < b.row_contacts(i, j).len() ==> b.is_detected(
                #[trigger] b.row_contacts(i, j)[k],
            ),
        forall|m: int|
            i < m < j && b.touching(i, m) ==> b.row_contacts(i, j).contains(
                #[trigger] b.contact_between(i, m),
            ),
    decreases j - i,
{
    if j > i + 1 {
        lemma_row_contacts(b, i, j - 1);
        let before = b.row_contacts(i, j - 1);
        let row = b.row_contacts(i, j);
        assert forall|k: int| 0 <= k < row.len() implies b.is_detected(#[trigger] row[k]) by {
            if k < before.len() {
                assert(row[k] == before[k]);
            } else {
                assert(b.is_contact_of(row[k], i, j - 1));
            }
        }
        assert forall|m: int| i < m < j && b.touching(i, m) implies row.contains(
            #[trigger] b.contact_between(i, m),
        ) by {
            if m < j - 1 {
                let at = choose|at: int|
                    0 <= at < before.len() && before[at] == b.contact_between(i, m);
                assert(row[at] == b.contact_between(i, m));
            } else {
                assert(row[row.len() - 1] == b.contact_between(i, m));
            }
        }
    }
}

/// Detection finds the contact of every overlapping pair, and nothing else.
pub proof fn lemma_detected_contacts<ID: Copy + Eq>(b: Bodies<ID>, n: int)
    requires
        0 <= n <= b.len(),
    ensures
        forall|k: int|
            0 <= k < b.detected_contacts(n).len() ==> b.is_detected(
                #[trigger] b.detected_contacts(n)[k],
            ),
        forall|i: int, j: int|
            0 <= i < n && i < j < b.len() && b.touching(i, j) ==> b.detected_contacts(n).contains(
                #[trigger] b.contact_between(i, j),
            ),
    decreases n,
{
    if n > 0 {
        lemma_detected_contacts(b, n - 1);
        let before = b.detected_contacts(n - 1);
        let row = b.row_contacts(n - 1, b.len() as int);
        let all = b.detected_contacts(n);
        if n - 1 < b.len() - 1 {
            lemma_row_contacts(b, n - 1, b.len() as int);
        }
        assert forall|k: int| 0 <= k < all.len() implies b.is_detected(#[trigger] all[k]) by {
            if k < before.len() {
                assert(all[k] == before[k]);
            } else {
                assert(all[k] == row[k - before.len()]);
            }
        }
        assert forall|i: int, j: int|
            0 <= i < n && i < j < b.len() && b.touching(i, j) implies all.contains(
            #[trigger] b.contact_between(i, j),
        ) by {
            if i < n - 1 {
                let at = choose|at: int|
                    0 <= at < before.len() && before[at] == b.contact_between(i, j);
                assert(all[at] == b.contact_between(i, j));
            } else {
                let at = choose|at: int| 0 <= at < row.len() && row[at] == b.contact_between(i, j);
                assert(all[before.len() + at] == b.contact_between(i, j));
            }
        }
    }
}

/// The contacts that a step resolves are exactly those of the overlapping
/// pairs: each names two different bodies, and no overlapping pair is left out.
pub proof fn lemma_ordered_contacts<ID: Copy + Eq>(b: Bodies<ID>)
    requires
        b.wf(),
    ensures
        forall|k: int|
            0 <= k < b.ordered_contacts().len() ==> b.is_detected(
                #[trigger] b.ordered_contacts()[k],
            ),
        forall|k: int|
            0 <= k < b.ordered_contacts().len() ==> b.has_pair(#[trigger] b.ordered_contacts()[k]),
        forall|i: int, j: int|
            0 <= i < j < b.len() && b.touching(i, j) ==> b.ordered_contacts().contains(
                #[trigger] b.contact_between(i, j),
            ),
{
    broadcast use vstd::seq_lib::group_to_multiset_ensures;

    let found = b.detected_contacts(b.len() as int);
    let cs = b.ordered_contacts();
    lemma_detected_contacts(b, b.len() as int);
    lemma_sort_by_depth(found);
    assert forall|k: int| 0 <= k < cs.len() implies b.is_detected(#[trigger] cs[k]) && b.has_pair(
        cs[k],
    ) by {
        assert(cs.to_multiset().count(cs[k]) > 0);
        assert(found.contains(cs[k]));
        let (i, j) = choose|i: int, j: int| b.is_contact_of(cs[k], i, j);
        assert(b.is_contact_of(cs[k], i, j));
    }
    assert forall|i: int, j: int| 0 <= i < j < b.len() && b.touching(i, j) implies cs.contains(
        #[trigger] b.contact_between(i, j),
    ) by {
        assert(found.contains(b.contact_between(i, j)));
        assert(found.to_multiset().count(b.contact_between(i, j)) > 0);
    }
}

/// Every contact that a step leaves behind has the shape of a contact.
pub proof fn lemma_step_contacts_shape<ID: Copy + Eq>(b: Bodies<ID>, k: int)
    requires
        b.wf(),
        0 <= k < b.step_contacts().len(),
    ensures
        b.is_contact(b.step_contacts()[k]),
        b.step().is_contact(b.step_contacts()[k]),
{
    let cs = b.ordered_contacts();
    lemma_ordered_contacts(b);
    lemma_settle_frame(b, cs, k);
    lemma_settle_frame(b, cs, cs.len() as int);
    let (i, j) = choose|i: int, j: int| b.is_contact_of(cs[k], i, j);
    assert(b.is_contact_of(cs[k], i, j));
    assert(b.is_contact(cs[k]));
    assert(b.step_contacts()[k] == b.settle(cs, k).measured(cs[k]));
}

/// Resolving a contact moves no body but the two that it names, and changes
/// nothing but centers.
pub proof fn lemma_resolve_frame<ID: Copy + Eq>(b: Bodies<ID>, c: Contact)
    requires
        b.wf(),
        b.has_pair(c),
    ensures
        b.resolve(c).wf(),
        b.resolve(c).len() == b.len(),
        b.resolve(c).half_sizes == b.half_sizes,
        b.resolve(c).velocities == b.velocities,
        b.resolve(c).metadata == b.metadata,
        forall|m: int|
            0 <= m < b.len() && m != c.i && m != c.j ==> #[trigger] b.resolve(c).centers[m]
                == b.centers[m],
{
}

/// Resolving contacts one after the other changes nothing but centers.
pub proof fn lemma_settle_frame<ID: Copy + Eq>(b: Bodies<ID>, cs: Seq<Contact>, k: int)
    requires
        b.wf(),
        0 <= k <= cs.len(),
        forall|m: int| 0 <= m < cs.len() ==> b.has_pair(#[trigger] cs[m]),
    ensures
        b.settle(cs, k).wf(),
        b.settle(cs, k).len() == b.len(),
        b.settle(cs, k).half_sizes == b.half_sizes,
        b.settle(cs, k).velocities == b.velocities,
        b.settle(cs, k).metadata == b.metadata,
    decreases k,
{
    if k > 0 {
        lemma_settle_frame(b, cs, k - 1);
        lemma_resolve_frame(b.settle(cs, k - 1), cs[k - 1]);
    }
}

/// A body that is added under a token that no body carries yet is found
/// under that token, behind the others, with exactly what it was added with.
pub proof fn lemma_added_body_is_found<ID: Copy + Eq>(
    b: Bodies<ID>,
    center: Vec2,
    half_size: Vec2,
    vel: Vec2,
    data: CollisionData<ID>,
)
    requires
        b.wf(),
        b.first_with_id(data.id, 0) == b.len(),
    ensures
        ({
            let added = b.with_body(center, half_size, vel, data);
            let at = added.first_with_id(data.id, 0);
            &&& at == b.len()
            &&& added.centers[at] == center
            &&& added.half_sizes[at] == half_size
            &&& added.velocities[at] == vel
            &&& added.metadata[at] == data
        }),
{
    lemma_first_with_id_pushed(b, center, half_size, vel, data, 0);
}

/// A token that no body from `from` on carries stands, once a body is added
/// under it, for that body.
pub proof fn lemma_first_with_id_pushed<ID: Copy + Eq>(
    b: Bodies<ID>,
    center: Vec2,
    half_size: Vec2,
    vel: Vec2,
    data: CollisionData<ID>,
    from: int,
)
    requires
        0 <= from <= b.metadata.len(),
        b.first_with_id(data.id, from) == b.metadata.len(),
    ensures
        b.with_body(center, half_size, vel, data).first_with_id(data.id, from)
            == b.metadata.len(),
    decreases b.metadata.len() - from,
{
    let added = b.with_body(center, half_size, vel, data);
    if from < b.metadata.len() {
        assert(added.metadata[from] == b.metadata[from]);
        lemma_first_with_id_pushed(b, center, half_size, vel, data, from + 1);
    }
}

/// A pair that does not overlap is not moved: resolving a contact between two
/// bodies that are apart changes nothing.
pub proof fn lemma_apart_pair_stays<ID: Copy + Eq>(b: Bodies<ID>, c: Contact)
    requires
        !b.touching(c.i as int, c.j as int),
    ensures
        b.resolve(c) == b,
        b.measured(c) == c,
{
}

/// A pair with a body that is not solid is not moved, and its contact is
/// recorded with no displacement.
pub proof fn lemma_non_solid_pair_stays<ID: Copy + Eq>(b: Bodies<ID>, i: int, j: int)
    requires
        b.wf(),
        0 <= i < j < b.len(),
        !b.metadata[i].solid || !b.metadata[j].solid,
    ensures
        b.contact_between(i, j).displacement == Vec2::spec_zero(),
        b.resolve(b.contact_between(i, j)) == b,
        b.measured(b.contact_between(i, j)) == b.contact_between(i, j),
{
}

/// A fixed body is not moved when a contact is resolved, whichever bodies the
/// contact names.
pub proof fn lemma_resolve_keeps_fixed<ID: Copy + Eq>(b: Bodies<ID>, c: Contact, m: int)
    requires
        b.wf(),
        b.has_pair(c),
        0 <= m < b.len(),
        b.metadata[m].fixed,
    ensures
        b.resolve(c).centers[m] == b.centers[m],
{
    if b.responds(c.i as int, c.j as int) && b.touching(c.i as int, c.j as int) && m == c.j {
        let r = spec_restitution(b.depth(c.i as int, c.j as int));
        lemma_whole_share(r.x as int);
        lemma_whole_share(r.y as int);
        assert(b.push_second(c) == Vec2::spec_zero());
    }
}

/// A fixed body is not moved by any run of contacts.
pub proof fn lemma_settle_keeps_fixed<ID: Copy + Eq>(
    b: Bodies<ID>,
    cs: Seq<Contact>,
    k: int,
    m: int,
)
    requires
        b.wf(),
        0 <= k <= cs.len(),
        forall|t: int| 0 <= t < cs.len() ==> b.has_pair(#[trigger] cs[t]),
        0 <= m < b.len(),
        b.metadata[m].fixed,
    ensures
        b.settle(cs, k).centers[m] == b.centers[m],
    decreases k,
{
    if k > 0 {
        lemma_settle_keeps_fixed(b, cs, k - 1, m);
        lemma_settle_frame(b, cs, k - 1);
        lemma_resolve_keeps_fixed(b.settle(cs, k - 1), cs[k - 1], m);
    }
}

/// A step never moves a fixed body, however many contacts involve it.
pub proof fn lemma_step_keeps_fixed<ID: Copy + Eq>(b: Bodies<ID>, m: int)
    requires
        b.wf(),
        0 <= m < b.len(),
        b.metadata[m].fixed,
    ensures
        b.step().centers[m] == b.centers[m],
{
    lemma_ordered_contacts(b);
    lemma_settle_keeps_fixed(b, b.ordered_contacts(), b.ordered_contacts().len() as int, m);
}

/// A run of contacts moves no body that none of them names.
pub proof fn lemma_settle_keeps_unnamed<ID: Copy + Eq>(
    b: Bodies<ID>,
    cs: Seq<Contact>,
    k: int,
    m: int,
)
    requires
        b.wf(),
        0 <= k <= cs.len(),
        forall|t: int| 0 <= t < cs.len() ==> b.has_pair(#[trigger] cs[t]),
        0 <= m < b.len(),
        forall|t: int| 0 <= t < k ==> (#[trigger] cs[t]).i != m && cs[t].j != m,
    ensures
        b.settle(cs, k).centers[m] == b.centers[m],
    decreases k,
{
    if k > 0 {
        lemma_settle_keeps_unnamed(b, cs, k - 1, m);
        lemma_settle_frame(b, cs, k - 1);
        lemma_resolve_frame(b.settle(cs, k - 1), cs[k - 1]);
        assert(cs[k - 1].i != m && cs[k - 1].j != m);
    }
}

/// A step does not move a body that overlaps no other body when the step
/// begins.
pub proof fn lemma_step_keeps_untouched<ID: Copy + Eq>(b: Bodies<ID>, m: int)
    requires
        b.wf(),
        0 <= m < b.len(),
        b.touches_none(m),
    ensures
        b.step().centers[m] == b.centers[m],
{
    let cs = b.ordered_contacts();
    lemma_ordered_contacts(b);
    assert forall|t: int| 0 <= t < cs.len() implies (#[trigger] cs[t]).i != m && cs[t].j != m by {
        let (i, j) = choose|i: int, j: int| b.is_contact_of(cs[t], i, j);
        assert(b.is_contact_of(cs[t], i, j));
        if i == m {
            assert(!b.touching(m, j));
        }
        if j == m {
            assert(!b.touching(m, i));
        }
    }
    lemma_settle_keeps_unnamed(b, cs, cs.len() as int, m);
}

/// Every pair that overlaps when a step begins is among the contacts that the
/// step leaves behind. Where the pair does not respond, because one body is not
/// solid or the first is fixed, its contact carries no displacement.
pub proof fn lemma_step_reports_pair<ID: Copy + Eq>(b: Bodies<ID>, i: int, j: int) -> (k: int)
    requires
        b.wf(),
        0 <= i < j < b.len(),
        b.touching(i, j),
    ensures
        0 <= k < b.step_contacts().len(),
        b.step_contacts()[k].i == b.contact_between(i, j).i,
        b.step_contacts()[k].j == b.contact_between(i, j).j,
        !b.responds(b.contact_between(i, j).i as int, b.contact_between(i, j).j as int)
            ==> b.step_contacts()[k] == b.contact_between(i, j) && b.step_contacts()[k].displacement
            == Vec2::spec_zero(),
{
    let cs = b.ordered_contacts();
    lemma_ordered_contacts(b);
    assert(cs.contains(b.contact_between(i, j)));
    let k = choose|k: int| 0 <= k < cs.len() && cs[k] == b.contact_between(i, j);
    lemma_settle_frame(b, cs, k);
    k
}

/// Against a fixed body, the other body takes the whole correction: it is
/// moved by all that the depth asks for, and the fixed body stays.
pub proof fn lemma_fixed_partner<ID: Copy + Eq>(b: Bodies<ID>, c: Contact)
    requires
        b.wf(),
        b.has_pair(c),
        b.responds(c.i as int, c.j as int),
        b.touching(c.i as int, c.j as int),
        b.metadata[c.j as int].fixed,
    ensures
        b.push_first(c) == spec_restitution(b.depth(c.i as int, c.j as int)),
        b.push_second(c) == Vec2::spec_zero(),
        b.resolve(c).centers[c.i as int] == b.centers[c.i as int].spec_moved(
            b.push_first(c).x as int,
            b.push_first(c).y as int,
        ),
        b.resolve(c).centers[c.j as int] == b.centers[c.j as int],
{
    let r = spec_restitution(b.depth(c.i as int, c.j as int));
    lemma_whole_share(r.x as int);
    lemma_whole_share(r.y as int);
}

/// Two unfixed bodies with the same speed along the axis of the correction
/// share it evenly. The first is moved by half the correction, rounded toward
/// zero, and the second by the rest, the other way; where the correction is
/// even, each is moved by exactly half of it. Neither is moved along the other
/// axis.
pub proof fn lemma_equal_speeds_share_evenly<ID: Copy + Eq>(b: Bodies<ID>, c: Contact)
    requires
        b.wf(),
        b.has_pair(c),
        b.responds(c.i as int, c.j as int),
        b.touching(c.i as int, c.j as int),
        !b.metadata[c.j as int].fixed,
        abs(b.depth(c.i as int, c.j as int).x as int) < abs(b.depth(c.i as int, c.j as int).y as int),
        abs(b.velocities[c.i as int].x as int) == abs(b.velocities[c.j as int].x as int),
    ensures
        ({
            let d = b.depth(c.i as int, c.j as int).x as int;
            let d_abs = abs(d);
            &&& b.push_first(c).y == 0
            &&& b.push_second(c).y == 0
            &&& d >= 0 ==> b.push_first(c).x == d / 2
            &&& d <= 0 ==> b.push_first(c).x == -((-d) / 2)
            &&& b.push_second(c).x == b.push_first(c).x - d
            &&& d % 2 == 0 ==> 2 * b.push_first(c).x == d && 2 * b.push_second(c).x == -d
            &&& b.resolve(c).centers[c.i as int] == b.centers[c.i as int].spec_moved(
                b.push_first(c).x as int,
                0,
            )
            &&& b.resolve(c).centers[c.j as int] == b.centers[c.j as int].spec_moved(
                b.push_second(c).x as int,
                0,
            )
        }),
{
    let d = b.depth(c.i as int, c.j as int);
    let r = spec_restitution(d);
    lemma_equal_speeds_halve(
        b.velocities[c.i as int].x as int,
        b.velocities[c.j as int].x as int,
        d.x as int,
    );
    lemma_share_of_nothing(b.share(c).y);
}

/// The same as `lemma_equal_speeds_share_evenly`, for a correction along
/// `y`.
pub proof fn lemma_equal_speeds_share_evenly_y<ID: Copy + Eq>(b: Bodies<ID>, c: Contact)
    requires
        b.wf(),
        b.has_pair(c),
        b.responds(c.i as int, c.j as int),
        b.touching(c.i as int, c.j as int),
        !b.metadata[c.j as int].fixed,
        abs(b.depth(c.i as int, c.j as int).y as int) < abs(b.depth(c.i as int, c.j as int).x as int),
        abs(b.velocities[c.i as int].y as int) == abs(b.velocities[c.j as int].y as int),
    ensures
        ({
            let d = b.depth(c.i as int, c.j as int).y as int;
            &&& b.push_first(c).x == 0
            &&& b.push_second(c).x == 0
            &&& d >= 0 ==> b.push_first(c).y == d / 2
            &&& d <= 0 ==> b.push_first(c).y == -((-d) / 2)
            &&& b.push_second(c).y == b.push_first(c).y - d
            &&& d % 2 == 0 ==> 2 * b.push_first(c).y == d && 2 * b.push_second(c).y == -d
            &&& b.resolve(c).centers[c.i as int] == b.centers[c.i as int].spec_moved(
                0,
                b.push_first(c).y as int,
            )
            &&& b.resolve(c).centers[c.j as int] == b.centers[c.j as int].spec_moved(
                0,
                b.push_second(c).y as int,
            )
        }),
{
    let d = b.depth(c.i as int, c.j as int);
    lemma_equal_speeds_halve(
        b.velocities[c.i as int].y as int,
        b.velocities[c.j as int].y as int,
        d.y as int,
    );
    lemma_share_of_nothing(b.share(c).x);
}

} // verus!
