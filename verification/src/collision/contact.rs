//! Contacts, and the order in which a step resolves them.

use crate::geometry::Vec2;
use vstd::math::abs;
use vstd::prelude::*;

verus! {

/// Two bodies that touch.
///
/// `i` and `j` index the engine's bodies. Where both bodies are fixed or both
/// unfixed, `i < j`. Where one is fixed and the other is not, `i` is the unfixed
/// one.
#[derive(Clone, Copy, PartialEq, Eq, Structural, Debug)]
pub struct Contact {
    /// The first body of the pair.
    pub i: usize,
    /// The second body of the pair.
    pub j: usize,
    /// How deep the first body sits in the second: the measured depth, not the
    /// distance that the bodies were moved. It is zero where one of the bodies
    /// is not solid, or where the first is fixed.
    pub displacement: Vec2,
}

/// The one thing that bodies do to each other: touch.
#[derive(Clone, Copy, PartialEq, Eq, Structural, Debug)]
pub enum CollisionEventType {
    Touching,
}

/// The correction that a displacement asks for: its component along the axis
/// of smaller magnitude, and nothing where the two magnitudes are equal.
pub open spec fn spec_restitution(d: Vec2) -> Vec2 {
    if abs(d.x as int) < abs(d.y as int) {
        Vec2 { x: d.x, y: 0 }
    } else if abs(d.y as int) < abs(d.x as int) {
        Vec2 { x: 0, y: d.y }
    } else {
        Vec2 { x: 0, y: 0 }
    }
}

/// The squared length of a contact's displacement: the key by which a step
/// orders its contacts.
pub open spec fn depth_key(c: Contact) -> int {
    c.displacement.x * c.displacement.x + c.displacement.y * c.displacement.y
}

impl Contact {
    /// How far the pair should be moved apart, taken by itself: along the axis
    /// on which the bodies overlap less.
    pub fn get_restitution(&self) -> (r: Vec2)
        ensures
            r == spec_restitution(self.displacement),
    {
        let ax: u64 = crate::geometry::magnitude(self.displacement.x);
        let ay: u64 = crate::geometry::magnitude(self.displacement.y);
        if ax < ay {
            Vec2 { x: self.displacement.x, y: 0 }
        } else if ay < ax {
            Vec2 { x: 0, y: self.displacement.y }
        } else {
            Vec2 { x: 0, y: 0 }
        }
    }

    /// The squared length of the displacement.
    pub fn depth(&self) -> (key: u128)
        ensures
            key == depth_key(*self),
    {
        let ax: u128 = crate::geometry::magnitude(self.displacement.x) as u128;
        let ay: u128 = crate::geometry::magnitude(self.displacement.y) as u128;
        proof {
            lemma_square_bounds(self.displacement.x as int);
            lemma_square_bounds(self.displacement.y as int);
        }
        ax * ax + ay * ay
    }
}

/// The square of an `i64` is the square of its magnitude, and fits in 127 bits.
proof fn lemma_square_bounds(v: int)
    requires
        -0x8000_0000_0000_0000 <= v <= 0x8000_0000_0000_0000,
    ensures
        v * v == abs(v) * abs(v),
        0 <= v * v <= 0x4000_0000_0000_0000_0000_0000_0000_0000,
{
    assert(v * v == abs(v) * abs(v)) by (nonlinear_arith);
    assert(0 <= v * v <= 0x8000_0000_0000_0000 * 0x8000_0000_0000_0000) by (nonlinear_arith)
        requires
            -0x8000_0000_0000_0000 <= v <= 0x8000_0000_0000_0000,
    ;
}

/// `sorted` with `c` put in behind every contact that is at least as deep.
pub open spec fn insert_by_depth(sorted: Seq<Contact>, c: Contact) -> Seq<Contact>
    decreases sorted.len(),
{
    if sorted.len() == 0 {
        seq![c]
    } else if depth_key(sorted.last()) >= depth_key(c) {
        sorted.push(c)
    } else {
        insert_by_depth(sorted.drop_last(), c).push(sorted.last())
    }
}

/// The contacts of `s`, deepest first. Contacts of equal depth keep the order
/// that they have in `s`.
pub open spec fn sort_by_depth(s: Seq<Contact>) -> Seq<Contact>
    decreases s.len(),
{
    if s.len() == 0 {
        Seq::empty()
    } else {
        insert_by_depth(sort_by_depth(s.drop_last()), s.last())
    }
}

/// No contact of `s` is deeper than one before it.
pub open spec fn deepest_first(s: Seq<Contact>) -> bool {
    forall|a: int, b: int| 0 <= a <= b < s.len() ==> depth_key(s[a]) >= depth_key(s[b])
}

/// Where in `sorted` a new contact belongs: behind the last contact that is at
/// least as deep.
pub open spec fn is_slot(sorted: Seq<Contact>, c: Contact, at: int) -> bool {
    &&& 0 <= at <= sorted.len()
    &&& at > 0 ==> depth_key(sorted[at - 1]) >= depth_key(c)
    &&& forall|k: int| at <= k < sorted.len() ==> depth_key(#[trigger] sorted[k]) < depth_key(c)
}

/// Putting a contact in at its slot is what `insert_by_depth` does.
pub proof fn lemma_insert_at_slot(sorted: Seq<Contact>, c: Contact, at: int)
    requires
        is_slot(sorted, c, at),
    ensures
        insert_by_depth(sorted, c) == sorted.insert(at, c),
    decreases sorted.len(),
{
    if sorted.len() == 0 {
        assert(seq![c] =~= sorted.insert(at, c));
    } else if at == sorted.len() {
        assert(sorted.push(c) =~= sorted.insert(at, c));
    } else {
        let front = sorted.drop_last();
        assert(depth_key(sorted[sorted.len() - 1]) < depth_key(c));
        assert forall|k: int| at <= k < front.len() implies depth_key(#[trigger] front[k])
            < depth_key(c) by {
            assert(front[k] == sorted[k]);
        }
        lemma_insert_at_slot(front, c, at);
        assert(front.insert(at, c).push(sorted.last()) =~= sorted.insert(at, c));
    }
}

/// Inserting keeps a sorted sequence sorted, and adds exactly the new contact.
pub proof fn lemma_insert_by_depth(sorted: Seq<Contact>, c: Contact)
    requires
        deepest_first(sorted),
    ensures
        deepest_first(insert_by_depth(sorted, c)),
        insert_by_depth(sorted, c).to_multiset() == sorted.to_multiset().insert(c),
        insert_by_depth(sorted, c).len() == sorted.len() + 1,
    decreases sorted.len(),
{
    broadcast use vstd::seq_lib::group_to_multiset_ensures;

    let out = insert_by_depth(sorted, c);
    if sorted.len() == 0 {
        assert(sorted =~= Seq::empty());
        assert(out =~= Seq::<Contact>::empty().push(c));
    } else if depth_key(sorted.last()) >= depth_key(c) {
        assert forall|a: int, b: int| 0 <= a <= b < out.len() implies depth_key(out[a])
            >= depth_key(out[b]) by {
            if b == sorted.len() && a < sorted.len() {
                assert(depth_key(sorted[a]) >= depth_key(sorted[sorted.len() - 1]));
            }
        }
    } else {
        let front = sorted.drop_last();
        let last = sorted.last();
        assert forall|a: int, b: int| 0 <= a <= b < front.len() implies depth_key(front[a])
            >= depth_key(front[b]) by {
            assert(front[a] == sorted[a] && front[b] == sorted[b]);
        }
        lemma_insert_by_depth(front, c);
        let mid = insert_by_depth(front, c);
        assert(sorted =~= front.push(last));
        assert(mid.to_multiset().insert(last) =~= front.to_multiset().insert(last).insert(c));
        assert forall|a: int, b: int| 0 <= a <= b < out.len() implies depth_key(out[a])
            >= depth_key(out[b]) by {
            if b == mid.len() && a < mid.len() {
                // every contact of `mid` is `c` or one of `front`
                assert(mid.to_multiset().count(mid[a]) > 0);
                if mid[a] != c {
                    assert(front.to_multiset().count(mid[a]) > 0);
                    let w = choose|w: int| 0 <= w < front.len() && front[w] == mid[a];
                    assert(depth_key(sorted[w]) >= depth_key(sorted[sorted.len() - 1]));
                }
            }
        }
    }
}

/// The result of `sort_by_depth` is sorted, and holds the same contacts.
pub proof fn lemma_sort_by_depth(s: Seq<Contact>)
    ensures
        deepest_first(sort_by_depth(s)),
        sort_by_depth(s).to_multiset() == s.to_multiset(),
        sort_by_depth(s).len() == s.len(),
    decreases s.len(),
{
    broadcast use vstd::seq_lib::group_to_multiset_ensures;

    if s.len() == 0 {
        assert(s =~= Seq::empty());
    } else {
        lemma_sort_by_depth(s.drop_last());
        lemma_insert_by_depth(sort_by_depth(s.drop_last()), s.last());
        assert(s =~= s.drop_last().push(s.last()));
    }
}

/// The contacts of `s` that are exactly `key` deep, in the order that they
/// have in `s`.
pub open spec fn with_depth(s: Seq<Contact>, key: int) -> Seq<Contact> {
    s.filter(|c: Contact| depth_key(c) == key)
}

/// Inserting a contact puts it behind the contacts of its own depth, and
/// leaves the contacts of every other depth in their order.
pub proof fn lemma_insert_is_stable(sorted: Seq<Contact>, c: Contact, key: int)
    ensures
        with_depth(insert_by_depth(sorted, c), key) == if depth_key(c) == key {
            with_depth(sorted, key).push(c)
        } else {
            with_depth(sorted, key)
        },
    decreases sorted.len(),
{
    reveal(Seq::filter);
    if sorted.len() == 0 {
        assert(seq![c].drop_last() =~= Seq::<Contact>::empty());
        assert(sorted =~= Seq::<Contact>::empty());
    } else if depth_key(sorted.last()) >= depth_key(c) {
        assert(sorted.push(c).drop_last() =~= sorted);
    } else {
        let front = sorted.drop_last();
        lemma_insert_is_stable(front, c, key);
        assert(insert_by_depth(front, c).push(sorted.last()).drop_last() =~= insert_by_depth(
            front,
            c,
        ));
    }
}

/// Sorting is stable: the contacts of any one depth come out in the order in
/// which they went in.
pub proof fn lemma_sort_is_stable(s: Seq<Contact>, key: int)
    ensures
        with_depth(sort_by_depth(s), key) == with_depth(s, key),
    decreases s.len(),
{
    reveal(Seq::filter);
    if s.len() > 0 {
        lemma_sort_is_stable(s.drop_last(), key);
        lemma_insert_is_stable(sort_by_depth(s.drop_last()), s.last(), key);
    }
}

/// Orders contacts deepest first. Contacts of equal depth keep their order.
pub fn sort_contacts(contacts: &mut Vec<Contact>)
    ensures
        final(contacts)@ == sort_by_depth(old(contacts)@),
{
    let mut sorted: Vec<Contact> = Vec::new();
    let n: usize = contacts.len();
    let mut k: usize = 0;
    while k < n
        invariant
            k <= n,
            n == contacts@.len(),
            contacts@ == old(contacts)@,
            sorted@ == sort_by_depth(contacts@.take(k as int)),
            sorted@.len() == k,
        decreases n - k,
    {
        let c: Contact = contacts[k];
        let key: u128 = c.depth();
        let mut at: usize = sorted.len();
        while at > 0 && sorted[at - 1].depth() < key
            invariant
                at <= sorted@.len(),
                key == depth_key(c),
                forall|m: int| at <= m < sorted@.len() ==> depth_key(#[trigger] sorted@[m]) < key,
            decreases at,
        {
            at -= 1;
        }
        proof {
            lemma_insert_at_slot(sorted@, c, at as int);
            assert(contacts@.take(k + 1).drop_last() =~= contacts@.take(k as int));
            lemma_sort_by_depth(contacts@.take(k as int));
        }
        sorted.insert(at, c);
        k += 1;
    }
    proof {
        assert(contacts@.take(n as int) =~= contacts@);
    }
    *contacts = sorted;
}

} // verus!
