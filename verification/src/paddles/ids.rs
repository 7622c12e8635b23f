//! The names of the entities of a game.
//!
//! The collision logic of a game holds its bodies in one row: first the
//! paddles, then the walls, then the balls. This module keeps the names of the
//! entities and finds the body of an entity and the entity of a body.

use crate::geometry::Vec2;
use vstd::prelude::*;
use vstd::std_specs::cmp::PartialEqSpecImpl;

verus! {

/// What names a paddle.
#[derive(Clone, Copy, PartialEq, Eq, Structural, Debug)]
pub struct PaddleID(pub usize);

/// What names a wall.
#[derive(Clone, Copy, PartialEq, Eq, Structural, Debug)]
pub struct WallID(pub usize);

/// What names a ball.
#[derive(Clone, Copy, PartialEq, Eq, Structural, Debug)]
pub struct BallID(pub usize);

/// What names a score.
#[derive(Clone, Copy, Eq, PartialOrd, Ord, Debug)]
pub struct ScoreID(pub usize);

impl PartialEq for ScoreID {
    fn eq(&self, other: &Self) -> (same: bool) {
        self.0 == other.0
    }
}

impl PartialEqSpecImpl for ScoreID {
    open spec fn obeys_eq_spec() -> bool {
        true
    }

    open spec fn eq_spec(&self, other: &Self) -> bool {
        self.0 == other.0
    }
}

/// What names an action of a paddle.
#[derive(Clone, Copy, Eq, PartialOrd, Ord, Debug)]
pub struct ActionID(pub usize);

impl PartialEq for ActionID {
    fn eq(&self, other: &Self) -> (same: bool) {
        self.0 == other.0
    }
}

impl PartialEqSpecImpl for ActionID {
    open spec fn obeys_eq_spec() -> bool {
        true
    }

    open spec fn eq_spec(&self, other: &Self) -> bool {
        self.0 == other.0
    }
}

impl PaddleID {
    pub fn new(idx: usize) -> (id: Self)
        ensures
            id == PaddleID(idx),
    {
        Self(idx)
    }

    pub fn idx(&self) -> (idx: usize)
        ensures
            idx == self.0,
    {
        self.0
    }
}

impl WallID {
    pub fn new(idx: usize) -> (id: Self)
        ensures
            id == WallID(idx),
    {
        Self(idx)
    }

    pub fn idx(&self) -> (idx: usize)
        ensures
            idx == self.0,
    {
        self.0
    }
}

impl BallID {
    pub fn new(idx: usize) -> (id: Self)
        ensures
            id == BallID(idx),
    {
        Self(idx)
    }

    pub fn idx(&self) -> (idx: usize)
        ensures
            idx == self.0,
    {
        self.0
    }
}

impl ScoreID {
    pub fn new(idx: usize) -> (id: Self)
        ensures
            id == ScoreID(idx),
    {
        Self(idx)
    }

    pub fn idx(&self) -> (idx: usize)
        ensures
            idx == self.0,
    {
        self.0
    }
}

impl ActionID {
    pub fn new(idx: usize) -> (id: Self)
        ensures
            id == ActionID(idx),
    {
        Self(idx)
    }

    pub fn idx(&self) -> (idx: usize)
        ensures
            idx == self.0,
    {
        self.0
    }
}

/// The kinds of body in the collision logic.
#[derive(Clone, Copy, PartialEq, Eq, Structural, Debug)]
pub enum CollisionEnt {
    Paddle,
    Wall,
    Ball,
}

/// The pools of the resource logic.
#[derive(Clone, Copy, Eq, PartialOrd, Ord, Debug)]
pub enum RsrcPool {
    Score(ScoreID),
}

impl PartialEq for RsrcPool {
    fn eq(&self, other: &Self) -> (same: bool) {
        match (self, other) {
            (RsrcPool::Score(a), RsrcPool::Score(b)) => a.0 == b.0,
        }
    }
}

impl PartialEqSpecImpl for RsrcPool {
    open spec fn obeys_eq_spec() -> bool {
        true
    }

    open spec fn eq_spec(&self, other: &Self) -> bool {
        match (*self, *other) {
            (RsrcPool::Score(a), RsrcPool::Score(b)) => a.0 == b.0,
        }
    }
}

/// Scores, actions and pools can be told apart by `==`.
pub proof fn lemma_names_tell_apart()
    ensures
        crate::graph::tells_apart::<ScoreID>(),
        crate::graph::tells_apart::<ActionID>(),
        crate::graph::tells_apart::<RsrcPool>(),
        crate::graph::tells_apart::<EntID>(),
{
}

/// The kinds of entity.
#[derive(Clone, Copy, PartialEq, Eq, Structural, Debug)]
pub enum EntType {
    Wall,
    Paddle,
    Ball,
    Score,
}

/// What names an entity.
#[derive(Clone, Copy, Eq, Debug)]
pub enum EntID {
    Wall(WallID),
    Ball(BallID),
    Paddle(PaddleID),
    Score(ScoreID),
}

impl PartialEq for EntID {
    fn eq(&self, other: &Self) -> (same: bool) {
        match (self, other) {
            (EntID::Wall(a), EntID::Wall(b)) => a.0 == b.0,
            (EntID::Ball(a), EntID::Ball(b)) => a.0 == b.0,
            (EntID::Paddle(a), EntID::Paddle(b)) => a.0 == b.0,
            (EntID::Score(a), EntID::Score(b)) => a.0 == b.0,
            _ => false,
        }
    }
}

impl PartialEqSpecImpl for EntID {
    open spec fn obeys_eq_spec() -> bool {
        true
    }

    open spec fn eq_spec(&self, other: &Self) -> bool {
        match (*self, *other) {
            (EntID::Wall(a), EntID::Wall(b)) => a.0 == b.0,
            (EntID::Ball(a), EntID::Ball(b)) => a.0 == b.0,
            (EntID::Paddle(a), EntID::Paddle(b)) => a.0 == b.0,
            (EntID::Score(a), EntID::Score(b)) => a.0 == b.0,
            _ => false,
        }
    }
}

impl EntType {
    /// The kind of entity that a kind of body is.
    pub fn from_col_type(col: CollisionEnt) -> (ty: EntType)
        ensures
            ty == match col {
                CollisionEnt::Paddle => EntType::Paddle,
                CollisionEnt::Wall => EntType::Wall,
                CollisionEnt::Ball => EntType::Ball,
            },
    {
        match col {
            CollisionEnt::Paddle => EntType::Paddle,
            CollisionEnt::Wall => EntType::Wall,
            CollisionEnt::Ball => EntType::Ball,
        }
    }
}

impl EntID {
    /// The entity has a body: it is no score.
    pub open spec fn collides(self) -> bool {
        !(self is Score)
    }

    /// The kind of body of the entity. A score has none.
    pub fn get_col_type(&self) -> (kind: CollisionEnt)
        requires
            self.collides(),
        ensures
            kind == match *self {
                EntID::Ball(_) => CollisionEnt::Ball,
                EntID::Paddle(_) => CollisionEnt::Paddle,
                _ => CollisionEnt::Wall,
            },
    {
        match self {
            EntID::Ball(_) => CollisionEnt::Ball,
            EntID::Paddle(_) => CollisionEnt::Paddle,
            _ => CollisionEnt::Wall,
        }
    }

    /// The kind of the entity.
    pub fn get_type(&self) -> (kind: EntType)
        ensures
            kind == match *self {
                EntID::Ball(_) => EntType::Ball,
                EntID::Paddle(_) => EntType::Paddle,
                EntID::Wall(_) => EntType::Wall,
                EntID::Score(_) => EntType::Score,
            },
    {
        match self {
            EntID::Ball(_) => EntType::Ball,
            EntID::Paddle(_) => EntType::Paddle,
            EntID::Wall(_) => EntType::Wall,
            EntID::Score(_) => EntType::Score,
        }
    }

    /// The number in the name.
    pub fn get_idx(&self) -> (idx: usize)
        ensures
            idx == match *self {
                EntID::Wall(id) => id.0,
                EntID::Ball(id) => id.0,
                EntID::Paddle(id) => id.0,
                EntID::Score(id) => id.0,
            },
    {
        match self {
            EntID::Wall(id) => id.idx(),
            EntID::Ball(id) => id.idx(),
            EntID::Paddle(id) => id.idx(),
            EntID::Score(id) => id.idx(),
        }
    }

    pub fn get_ball(&self) -> (ball: Option<BallID>)
        ensures
            ball == match *self {
                EntID::Ball(id) => Some(id),
                _ => None,
            },
    {
        match self {
            EntID::Ball(id) => Some(*id),
            _ => None,
        }
    }

    pub fn get_wall(&self) -> (wall: Option<WallID>)
        ensures
            wall == match *self {
                EntID::Wall(id) => Some(id),
                _ => None,
            },
    {
        match self {
            EntID::Wall(id) => Some(*id),
            _ => None,
        }
    }

    pub fn get_paddle(&self) -> (paddle: Option<PaddleID>)
        ensures
            paddle == match *self {
                EntID::Paddle(id) => Some(id),
                _ => None,
            },
    {
        match self {
            EntID::Paddle(id) => Some(*id),
            _ => None,
        }
    }
}

/// The first position in `ids`, from `from` on, that holds `id`; the length
/// of `ids` where none does.
pub open spec fn first_at<T>(ids: Seq<T>, id: T, from: int) -> int
    decreases ids.len() - from,
{
    if from < 0 || from >= ids.len() {
        ids.len() as int
    } else if ids[from] == id {
        from
    } else {
        first_at(ids, id, from + 1)
    }
}

/// `first_at` gives a position at or behind `from` that holds `id`, or the
/// length; and no position before it holds `id`.
pub proof fn lemma_first_at<T>(ids: Seq<T>, id: T, from: int)
    requires
        0 <= from <= ids.len(),
    ensures
        from <= first_at(ids, id, from) <= ids.len(),
        first_at(ids, id, from) < ids.len() ==> ids[first_at(ids, id, from)] == id,
        forall|k: int| from <= k < first_at(ids, id, from) ==> ids[k] != id,
    decreases ids.len() - from,
{
    if from < ids.len() && ids[from] != id {
        lemma_first_at(ids, id, from + 1);
    }
}

/// The position of a paddle that is in the list.
pub fn find_paddle(ids: &Vec<PaddleID>, id: PaddleID) -> (at: usize)
    requires
        ids@.contains(id),
    ensures
        at == first_at(ids@, id, 0),
        at < ids@.len(),
        ids@[at as int] == id,
{
    let n: usize = ids.len();
    let mut k: usize = 0;
    proof {
        lemma_first_at(ids@, id, 0);
        let w = choose|w: int| 0 <= w < ids@.len() && ids@[w] == id;
        assert(first_at(ids@, id, 0) <= w);
    }
    loop
        invariant
            k < ids@.len(),
            n == ids@.len(),
            first_at(ids@, id, 0) == first_at(ids@, id, k as int),
            first_at(ids@, id, 0) < ids@.len(),
        decreases ids@.len() - k,
    {
        if ids[k] == id {
            return k;
        }
        proof {
            lemma_first_at(ids@, id, k + 1);
        }
        k += 1;
    }
}

/// The position of a wall that is in the list.
pub fn find_wall(ids: &Vec<WallID>, id: WallID) -> (at: usize)
    requires
        ids@.contains(id),
    ensures
        at == first_at(ids@, id, 0),
        at < ids@.len(),
        ids@[at as int] == id,
{
    let n: usize = ids.len();
    let mut k: usize = 0;
    proof {
        lemma_first_at(ids@, id, 0);
        let w = choose|w: int| 0 <= w < ids@.len() && ids@[w] == id;
        assert(first_at(ids@, id, 0) <= w);
    }
    loop
        invariant
            k < ids@.len(),
            n == ids@.len(),
            first_at(ids@, id, 0) == first_at(ids@, id, k as int),
            first_at(ids@, id, 0) < ids@.len(),
        decreases ids@.len() - k,
    {
        if ids[k] == id {
            return k;
        }
        proof {
            lemma_first_at(ids@, id, k + 1);
        }
        k += 1;
    }
}

/// The position of a ball that is in the list.
pub fn find_ball(ids: &Vec<BallID>, id: BallID) -> (at: usize)
    requires
        ids@.contains(id),
    ensures
        at == first_at(ids@, id, 0),
        at < ids@.len(),
        ids@[at as int] == id,
{
    let n: usize = ids.len();
    let mut k: usize = 0;
    proof {
        lemma_first_at(ids@, id, 0);
        let w = choose|w: int| 0 <= w < ids@.len() && ids@[w] == id;
        assert(first_at(ids@, id, 0) <= w);
    }
    loop
        invariant
            k < ids@.len(),
            n == ids@.len(),
            first_at(ids@, id, 0) == first_at(ids@, id, k as int),
            first_at(ids@, id, 0) < ids@.len(),
        decreases ids@.len() - k,
    {
        if ids[k] == id {
            return k;
        }
        proof {
            lemma_first_at(ids@, id, k + 1);
        }
        k += 1;
    }
}

/// The velocity of a ball once it has bounced: turned around along each axis
/// along which it touched. A speed that cannot be turned around, because it is
/// the least number there is, becomes the greatest.
pub open spec fn spec_bounce(vel: Vec2, sides_touched: Vec2) -> Vec2 {
    Vec2 {
        x: if sides_touched.x != 0 {
            turned(vel.x)
        } else {
            vel.x
        },
        y: if sides_touched.y != 0 {
            turned(vel.y)
        } else {
            vel.y
        },
    }
}

/// A speed turned around.
pub open spec fn turned(speed: i64) -> i64 {
    if speed == i64::MIN {
        i64::MAX
    } else {
        (-speed) as i64
    }
}

/// The velocity of a ball once it has bounced off what it touched along the
/// axes that `sides_touched` names.
pub fn bounce(vel: Vec2, sides_touched: Vec2) -> (bounced: Vec2)
    ensures
        bounced == spec_bounce(vel, sides_touched),
{
    let mut vel = vel;
    if sides_touched.y != 0 {
        vel.y = if vel.y == i64::MIN {
            i64::MAX
        } else {
            -vel.y
        };
    }
    if sides_touched.x != 0 {
        vel.x = if vel.x == i64::MIN {
            i64::MAX
        } else {
            -vel.x
        };
    }
    vel
}

} // verus!
