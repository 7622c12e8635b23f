//! The entities of a game: which there are, and which wait to be added and
//! removed.

use crate::paddles::ids::{
    find_ball, find_paddle, find_wall, first_at, lemma_first_at, BallID, EntID, PaddleID, ScoreID,
    WallID,
};
use crate::paddles::types::{ent_views, Ent};
use vstd::prelude::*;

verus! {

/// The names of the entities of a game, and what waits to be added and
/// removed.
pub struct State<KeyCode: Copy> {
    pub remove_queue: Vec<EntID>,
    pub add_queue: Vec<Ent<KeyCode>>,
    pub paddles: Vec<PaddleID>,
    pub walls: Vec<WallID>,
    pub balls: Vec<BallID>,
    pub scores: Vec<ScoreID>,
    pub paddle_id_max: usize,
    pub ball_id_max: usize,
    pub wall_id_max: usize,
    pub score_id_max: usize,
}

impl<KeyCode: Copy> State<KeyCode> {
    /// A state without entities.
    pub fn new() -> (state: Self)
        ensures
            state.paddles@.len() == 0,
            state.walls@.len() == 0,
            state.balls@.len() == 0,
            state.scores@.len() == 0,
            state.remove_queue@.len() == 0,
            state.add_queue@.len() == 0,
            state.paddle_id_max == 0,
            state.ball_id_max == 0,
            state.wall_id_max == 0,
            state.score_id_max == 0,
    {
        Self {
            remove_queue: Vec::new(),
            add_queue: Vec::new(),
            paddles: Vec::new(),
            walls: Vec::new(),
            balls: Vec::new(),
            scores: Vec::new(),
            paddle_id_max: 0,
            ball_id_max: 0,
            wall_id_max: 0,
            score_id_max: 0,
        }
    }

    /// The number of bodies: of paddles, walls and balls together.
    pub open spec fn bodies(&self) -> int {
        (self.paddles@.len() + self.walls@.len() + self.balls@.len()) as int
    }

    /// The entity is one of this state.
    pub open spec fn has(&self, id: EntID) -> bool {
        match id {
            EntID::Paddle(p) => self.paddles@.contains(p),
            EntID::Wall(w) => self.walls@.contains(w),
            EntID::Ball(b) => self.balls@.contains(b),
            EntID::Score(s) => self.scores@.contains(s),
        }
    }

    /// The index of the body of an entity: paddles come first, then walls, then
    /// balls, each kind in the order of its list. An entity that is named twice
    /// has the body of its first name.
    pub open spec fn spec_col_idx(&self, id: EntID) -> int {
        match id {
            EntID::Paddle(p) => first_at(self.paddles@, p, 0),
            EntID::Wall(w) => first_at(self.walls@, w, 0) + self.paddles@.len(),
            EntID::Ball(b) => first_at(self.balls@, b, 0) + self.paddles@.len()
                + self.walls@.len(),
            EntID::Score(_) => self.bodies(),
        }
    }

    /// The entity of body `idx`; the score whose place among the scores is
    /// `idx` less the number of bodies, for an index past the bodies.
    pub open spec fn spec_id(&self, idx: int) -> EntID {
        if idx < self.paddles@.len() {
            EntID::Paddle(self.paddles@[idx])
        } else if idx < self.paddles@.len() + self.walls@.len() {
            EntID::Wall(self.walls@[idx - self.paddles@.len()])
        } else if idx < self.bodies() {
            EntID::Ball(self.balls@[idx - self.paddles@.len() - self.walls@.len()])
        } else {
            EntID::Score(self.scores@[idx - self.bodies()])
        }
    }

    /// The bodies can be counted: their number fits an index.
    pub open spec fn wf(&self) -> bool {
        self.bodies() <= usize::MAX
    }

    /// Tests `wf`.
    pub fn is_wf(&self) -> (b: bool)
        ensures
            b == self.wf(),
    {
        match self.paddles.len().checked_add(self.walls.len()) {
            Some(sum) => sum.checked_add(self.balls.len()).is_some(),
            None => false,
        }
    }

    /// The index of the body of an entity.
    pub fn get_col_idx(&self, id: EntID) -> (idx: usize)
        requires
            self.wf(),
            id.collides(),
            self.has(id),
        ensures
            idx == self.spec_col_idx(id),
            idx < self.bodies(),
            self.spec_id(idx as int) == id,
    {
        match id {
            EntID::Paddle(p) => find_paddle(&self.paddles, p),
            EntID::Wall(w) => find_wall(&self.walls, w) + self.paddles.len(),
            EntID::Ball(b) => find_ball(&self.balls, b) + self.paddles.len() + self.walls.len(),
            EntID::Score(_) => 0,
        }
    }

    /// The entity of body `idx`. An index past the bodies names a score.
    pub fn get_id(&self, idx: usize) -> (id: EntID)
        requires
            self.wf(),
            idx < self.bodies() + self.scores@.len(),
        ensures
            id == self.spec_id(idx as int),
            idx < self.bodies() ==> id.collides(),
    {
        let paddles = self.paddles.len();
        let walls = self.walls.len();
        let balls = self.balls.len();
        if idx < paddles {
            EntID::Paddle(self.paddles[idx])
        } else if idx - paddles < walls {
            EntID::Wall(self.walls[idx - paddles])
        } else if idx - paddles - walls < balls {
            EntID::Ball(self.balls[idx - paddles - walls])
        } else {
            EntID::Score(self.scores[idx - paddles - walls - balls])
        }
    }

    /// Notes that an entity is to be removed, unless that is noted already.
    pub fn queue_remove(&mut self, ent: EntID)
        ensures
            final(self).remove_queue@ == if old(self).remove_queue@.contains(ent) {
                old(self).remove_queue@
            } else {
                old(self).remove_queue@.push(ent)
            },
            final(self).add_queue == old(self).add_queue,
            final(self).paddles == old(self).paddles,
            final(self).walls == old(self).walls,
            final(self).balls == old(self).balls,
            final(self).scores == old(self).scores,
            final(self).paddle_id_max == old(self).paddle_id_max,
            final(self).wall_id_max == old(self).wall_id_max,
            final(self).ball_id_max == old(self).ball_id_max,
            final(self).score_id_max == old(self).score_id_max,
    {
        let mut k: usize = 0;
        while k < self.remove_queue.len()
            invariant
                k <= self.remove_queue@.len(),
                *self == *old(self),
                forall|m: int| 0 <= m < k ==> self.remove_queue@[m] != ent,
            decreases self.remove_queue@.len() - k,
        {
            if self.remove_queue[k] == ent {
                return ;
            }
            k += 1;
        }
        self.remove_queue.push(ent);
    }

    /// Notes that an entity is to be added.
    pub fn queue_add(&mut self, ent: Ent<KeyCode>)
        ensures
            ent_views(final(self).add_queue@) == ent_views(old(self).add_queue@).push(ent@),
            final(self).remove_queue == old(self).remove_queue,
            final(self).paddles == old(self).paddles,
            final(self).walls == old(self).walls,
            final(self).balls == old(self).balls,
            final(self).scores == old(self).scores,
            final(self).paddle_id_max == old(self).paddle_id_max,
            final(self).wall_id_max == old(self).wall_id_max,
            final(self).ball_id_max == old(self).ball_id_max,
            final(self).score_id_max == old(self).score_id_max,
    {
        let ghost before = ent_views(self.add_queue@);
        self.add_queue.push(ent);
        assert(ent_views(self.add_queue@) =~= before.push(ent@));
    }
}

/// The entity of the body of an entity is that entity.
pub proof fn lemma_body_round_trip<KeyCode: Copy>(state: State<KeyCode>, id: EntID)
    requires
        id.collides(),
        state.has(id),
    ensures
        0 <= state.spec_col_idx(id) < state.bodies(),
        state.spec_id(state.spec_col_idx(id)) == id,
{
    match id {
        EntID::Paddle(p) => {
            lemma_first_at(state.paddles@, p, 0);
            let w = choose|w: int| 0 <= w < state.paddles@.len() && state.paddles@[w] == p;
            assert(first_at(state.paddles@, p, 0) <= w);
        },
        EntID::Wall(w) => {
            lemma_first_at(state.walls@, w, 0);
            let k = choose|k: int| 0 <= k < state.walls@.len() && state.walls@[k] == w;
            assert(first_at(state.walls@, w, 0) <= k);
        },
        EntID::Ball(b) => {
            lemma_first_at(state.balls@, b, 0);
            let k = choose|k: int| 0 <= k < state.balls@.len() && state.balls@[k] == b;
            assert(first_at(state.balls@, b, 0) <= k);
        },
        EntID::Score(_) => {},
    }
}

} // verus!
