//! The entities of a game of paddles, before they are added to it.

use crate::geometry::Vec2;
use crate::paddles::ids::ActionID;
use vstd::prelude::*;

verus! {

/// A paddle: where its corner of least coordinates is, how large it is, and
/// which keys do what for it.
#[derive(Debug)]
pub struct Paddle<KeyCode: Copy> {
    pub pos: Vec2,
    pub size: Vec2,
    /// The actions of the paddle, each with its key and with whether it is
    /// valid.
    pub controls: Vec<(ActionID, KeyCode, bool)>,
}

impl<KeyCode: Copy> Paddle<KeyCode> {
    pub fn new(pos: Vec2, size: Vec2) -> (paddle: Self)
        ensures
            paddle.pos == pos,
            paddle.size == size,
            paddle.controls@.len() == 0,
    {
        Self { pos, size, controls: Vec::new() }
    }

    /// Binds a key to a new action of the paddle. The actions of a paddle are
    /// numbered from zero in the order in which they are bound.
    pub fn add_control_map(&mut self, keycode: KeyCode, valid: bool) -> (act_id: ActionID)
        ensures
            act_id == ActionID(old(self).controls@.len() as usize),
            final(self).controls@ == old(self).controls@.push((act_id, keycode, valid)),
            final(self).pos == old(self).pos,
            final(self).size == old(self).size,
    {
        let act_id = ActionID(self.controls.len());
        self.controls.push((act_id, keycode, valid));
        act_id
    }

    /// A copy of this paddle.
    pub fn copy(&self) -> (copy: Self)
        ensures
            copy.pos == self.pos,
            copy.size == self.size,
            copy.controls@ == self.controls@,
    {
        let mut controls: Vec<(ActionID, KeyCode, bool)> = Vec::new();
        let mut k: usize = 0;
        while k < self.controls.len()
            invariant
                k <= self.controls@.len(),
                controls@ == self.controls@.take(k as int),
            decreases self.controls@.len() - k,
        {
            controls.push(self.controls[k]);
            k += 1;
            assert(controls@ =~= self.controls@.take(k as int));
        }
        assert(self.controls@.take(self.controls@.len() as int) =~= self.controls@);
        Self { pos: self.pos, size: self.size, controls }
    }
}

/// A ball: where its corner of least coordinates is, how large it is, and how
/// fast it moves.
#[derive(Clone, Copy, PartialEq, Eq, Structural, Debug)]
pub struct Ball {
    pub pos: Vec2,
    pub size: Vec2,
    pub vel: Vec2,
}

impl Ball {
    /// A ball at rest.
    pub fn new(pos: Vec2, size: Vec2) -> (ball: Self)
        ensures
            ball == (Ball { pos, size, vel: Vec2::spec_zero() }),
    {
        Self { pos, size, vel: Vec2::zero() }
    }
}

/// A wall: where its corner of least coordinates is, and how large it is.
#[derive(Clone, Copy, PartialEq, Eq, Structural, Debug)]
pub struct Wall {
    pub pos: Vec2,
    pub size: Vec2,
}

impl Wall {
    pub fn new(pos: Vec2, size: Vec2) -> (wall: Self)
        ensures
            wall == (Wall { pos, size }),
    {
        Self { pos, size }
    }
}

/// How many blocks a row of blocks has.
pub const BLOCKS_ACROSS: usize = 8;

/// How many rows of blocks there are.
pub const BLOCK_ROWS: usize = 5;

/// The block at place `k` of a field of blocks of one size: the blocks stand
/// side by side, row by row, from the corner of the field.
pub open spec fn block_at(size: Vec2, k: int) -> Wall {
    Wall {
        pos: Vec2 { x: ((k % 8) * size.x) as i64, y: ((k / 8) * size.y) as i64 },
        size,
    }
}

/// A field of blocks of one size: five rows of eight walls each.
pub fn add_blocks(size: Vec2) -> (blocks: Vec<Wall>)
    requires
        size.in_range(),
    ensures
        blocks@.len() == BLOCKS_ACROSS * BLOCK_ROWS,
        forall|k: int| 0 <= k < blocks@.len() ==> #[trigger] blocks@[k] == block_at(size, k),
{
    let mut blocks: Vec<Wall> = Vec::new();
    let mut y: usize = 0;
    while y < BLOCK_ROWS
        invariant
            y <= BLOCK_ROWS,
            size.in_range(),
            blocks@.len() == y * 8,
            forall|k: int| 0 <= k < blocks@.len() ==> #[trigger] blocks@[k] == block_at(size, k),
        decreases BLOCK_ROWS - y,
    {
        let mut x: usize = 0;
        while x < BLOCKS_ACROSS
            invariant
                x <= BLOCKS_ACROSS,
                y < BLOCK_ROWS,
                size.in_range(),
                blocks@.len() == y * 8 + x,
                forall|k: int| 0 <= k < blocks@.len() ==> #[trigger] blocks@[k] == block_at(size, k),
            decreases BLOCKS_ACROSS - x,
        {
            let across: i64 = x as i64;
            let down: i64 = y as i64;
            assert(-0x7000_0000_0000_0000 <= across * size.x <= 0x7000_0000_0000_0000)
                by (nonlinear_arith)
                requires
                    0 <= across <= 7,
                    -0x1000_0000_0000_0000 <= size.x <= 0x1000_0000_0000_0000,
            ;
            assert(-0x4000_0000_0000_0000 <= down * size.y <= 0x4000_0000_0000_0000)
                by (nonlinear_arith)
                requires
                    0 <= down <= 4,
                    -0x1000_0000_0000_0000 <= size.y <= 0x1000_0000_0000_0000,
            ;
            blocks.push(Wall { pos: Vec2 { x: across * size.x, y: down * size.y }, size });
            x += 1;
        }
        y += 1;
    }
    blocks
}

/// A score: what it counts to begin with, and where it is shown.
#[derive(Clone, Copy, PartialEq, Eq, Structural, Debug)]
pub struct Score {
    pub value: u16,
    pub position: Vec2,
}

/// The least that a score can count.
pub const SCORE_MIN: i64 = 0;

/// The most that a score can count.
pub const SCORE_MAX: i64 = 0xffff;

impl Score {
    pub fn new(value: u16, position: Vec2) -> (score: Self)
        ensures
            score == (Score { value, position }),
    {
        Self { value, position }
    }
}

/// An entity, before it is added to a game.
#[derive(Debug)]
pub enum Ent<KeyCode: Copy> {
    Wall(Wall),
    Ball(Ball),
    Paddle(Paddle<KeyCode>),
    Score(Score),
}

/// What an entity is made of.
pub enum EntView<KeyCode> {
    Wall(Wall),
    Ball(Ball),
    Paddle { pos: Vec2, size: Vec2, controls: Seq<(ActionID, KeyCode, bool)> },
    Score(Score),
}

impl<KeyCode: Copy> View for Ent<KeyCode> {
    type V = EntView<KeyCode>;

    open spec fn view(&self) -> EntView<KeyCode> {
        match *self {
            Ent::Wall(wall) => EntView::Wall(wall),
            Ent::Ball(ball) => EntView::Ball(ball),
            Ent::Paddle(paddle) => EntView::Paddle {
                pos: paddle.pos,
                size: paddle.size,
                controls: paddle.controls@,
            },
            Ent::Score(score) => EntView::Score(score),
        }
    }
}

impl<KeyCode: Copy> Ent<KeyCode> {
    /// A copy of this entity.
    pub fn copy(&self) -> (copy: Self)
        ensures
            copy@ == self@,
    {
        match self {
            Ent::Wall(wall) => Ent::Wall(*wall),
            Ent::Ball(ball) => Ent::Ball(*ball),
            Ent::Paddle(paddle) => Ent::Paddle(paddle.copy()),
            Ent::Score(score) => Ent::Score(*score),
        }
    }
}

/// What each entity of a list is made of.
pub open spec fn ent_views<KeyCode: Copy>(ents: Seq<Ent<KeyCode>>) -> Seq<EntView<KeyCode>> {
    Seq::new(ents.len(), |k: int| ents[k]@)
}

} // verus!
