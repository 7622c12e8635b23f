//! Between two frames of a game: the entities that were noted for removal
//! leave, and those that were noted to be added come.

use crate::control::InputWrapper;
use crate::paddles::engine::{Game, GameView};
use crate::paddles::ids::{lemma_first_at, EntID};
use crate::paddles::types::{ent_views, Ent, EntView};
use vstd::prelude::*;

verus! {

/// The number in the name of an entity.
pub open spec fn number_of(id: EntID) -> usize {
    match id {
        EntID::Wall(id) => id.0,
        EntID::Ball(id) => id.0,
        EntID::Paddle(id) => id.0,
        EntID::Score(id) => id.0,
    }
}

/// `sorted` with `id` put in behind every entity whose number is at least as
/// great.
pub open spec fn insert_by_number(sorted: Seq<EntID>, id: EntID) -> Seq<EntID>
    decreases sorted.len(),
{
    if sorted.len() == 0 {
        seq![id]
    } else if number_of(sorted.last()) >= number_of(id) {
        sorted.push(id)
    } else {
        insert_by_number(sorted.drop_last(), id).push(sorted.last())
    }
}

/// The entities of `ids`, those with the greatest number first. Entities with
/// the same number keep the order that they have in `ids`.
pub open spec fn sort_by_number(ids: Seq<EntID>) -> Seq<EntID>
    decreases ids.len(),
{
    if ids.len() == 0 {
        Seq::empty()
    } else {
        insert_by_number(sort_by_number(ids.drop_last()), ids.last())
    }
}

/// Where in `sorted` a new entity belongs: behind the last entity whose number
/// is at least as great.
pub open spec fn is_place(sorted: Seq<EntID>, id: EntID, at: int) -> bool {
    &&& 0 <= at <= sorted.len()
    &&& at > 0 ==> number_of(sorted[at - 1]) >= number_of(id)
    &&& forall|k: int| at <= k < sorted.len() ==> number_of(#[trigger] sorted[k]) < number_of(id)
}

/// Putting an entity in at its place is what `insert_by_number` does.
pub proof fn lemma_insert_at_place(sorted: Seq<EntID>, id: EntID, at: int)
    requires
        is_place(sorted, id, at),
    ensures
        insert_by_number(sorted, id) == sorted.insert(at, id),
    decreases sorted.len(),
{
    if sorted.len() == 0 {
        assert(seq![id] =~= sorted.insert(at, id));
    } else if at == sorted.len() {
        assert(sorted.push(id) =~= sorted.insert(at, id));
    } else {
        let front = sorted.drop_last();
        assert(number_of(sorted[sorted.len() - 1]) < number_of(id));
        assert forall|k: int| at <= k < front.len() implies number_of(#[trigger] front[k])
            < number_of(id) by {
            assert(front[k] == sorted[k]);
        }
        lemma_insert_at_place(front, id, at);
        assert(front.insert(at, id).push(sorted.last()) =~= sorted.insert(at, id));
    }
}

/// Orders entities by the numbers in their names, the greatest first.
/// Entities with the same number keep their order.
pub fn sort_queue(queue: &mut Vec<EntID>)
    ensures
        final(queue)@ == sort_by_number(old(queue)@),
        final(queue)@.len() == old(queue)@.len(),
{
    let mut sorted: Vec<EntID> = Vec::new();
    let n: usize = queue.len();
    let mut k: usize = 0;
    while k < n
        invariant
            k <= n,
            n == queue@.len(),
            queue@ == old(queue)@,
            sorted@ == sort_by_number(queue@.take(k as int)),
            sorted@.len() == k,
        decreases n - k,
    {
        let id: EntID = queue[k];
        let key: usize = id.get_idx();
        let mut at: usize = sorted.len();
        while at > 0 && sorted[at - 1].get_idx() < key
            invariant
                at <= sorted@.len(),
                key == number_of(id),
                forall|m: int| at <= m < sorted@.len() ==> number_of(#[trigger] sorted@[m]) < key,
            decreases at,
        {
            at -= 1;
        }
        proof {
            lemma_insert_at_place(sorted@, id, at as int);
            assert(queue@.take(k + 1).drop_last() =~= queue@.take(k as int));
        }
        sorted.insert(at, id);
        k += 1;
    }
    proof {
        assert(queue@.take(n as int) =~= queue@);
    }
    *queue = sorted;
}

impl<KeyCode: Copy> GameView<KeyCode> {
    /// The game without an entity.
    pub open spec fn without_ent(self, id: EntID) -> Self {
        match id {
            EntID::Wall(wall) => self.without_wall(wall),
            EntID::Ball(ball) => self.without_ball(ball),
            EntID::Paddle(paddle) => self.without_paddle(paddle),
            EntID::Score(score) => self.without_score(score),
        }
    }

    /// The game with one more entity.
    pub open spec fn with_ent(self, ent: EntView<KeyCode>) -> Self {
        match ent {
            EntView::Wall(wall) => self.with_wall(wall),
            EntView::Ball(ball) => self.with_ball(ball),
            EntView::Paddle { pos, size, controls } => self.with_paddle(pos, size, controls),
            EntView::Score(score) => self.with_score(score),
        }
    }

    /// The game without the first `upto` of the entities.
    pub open spec fn all_removed(self, ids: Seq<EntID>, upto: int) -> Self
        decreases upto,
    {
        if upto <= 0 {
            self
        } else {
            self.all_removed(ids, upto - 1).without_ent(ids[upto - 1])
        }
    }

    /// The game with the first `upto` of the entities added, in order.
    pub open spec fn all_added(self, ents: Seq<EntView<KeyCode>>, upto: int) -> Self
        decreases upto,
    {
        if upto <= 0 {
            self
        } else {
            self.all_added(ents, upto - 1).with_ent(ents[upto - 1])
        }
    }

    /// The game once its queues are emptied: the entities noted for removal
    /// have left, those with the greatest numbers first, and then the
    /// entities noted to be added have come, in the order in which they were
    /// noted.
    pub open spec fn settled(self) -> Self {
        let leaving = sort_by_number(self.remove_queue);
        (GameView { remove_queue: Seq::empty(), add_queue: Seq::empty(), ..self }).all_removed(
            leaving,
            leaving.len() as int,
        ).all_added(self.add_queue, self.add_queue.len() as int)
    }

    /// There is room for `more` entities of any kind: bodies and names can
    /// still be counted.
    pub open spec fn has_room(self, more: int) -> bool {
        &&& self.count() + more <= usize::MAX
        &&& self.paddle_id_max + more <= usize::MAX
        &&& self.wall_id_max + more <= usize::MAX
        &&& self.ball_id_max + more <= usize::MAX
        &&& self.score_id_max + more <= usize::MAX
    }
}

impl<Wrapper: InputWrapper> Game<Wrapper> {
    /// Tests `has_room`.
    pub fn room_for(&self, more: usize) -> (b: bool)
        requires
            self@.wf(),
        ensures
            b == self@.has_room(more as int),
    {
        let count: usize = self.state.paddles.len() + self.state.walls.len()
            + self.state.balls.len();
        let most: usize = usize::MAX - more;
        count <= most && self.state.paddle_id_max <= most && self.state.wall_id_max <= most
            && self.state.ball_id_max <= most && self.state.score_id_max <= most
    }

    /// Empties the two queues: removes the entities that were noted for
    /// removal, and then adds those that were noted to be added.
    pub fn apply_queues(&mut self)
        requires
            old(self)@.wf(),
            old(self)@.has_room(old(self)@.add_queue.len() as int),
        ensures
            final(self)@.wf(),
            final(self).events == old(self).events,
            final(self)@ == old(self)@.settled(),
    {
        let mut leaving: Vec<EntID> = Vec::new();
        std::mem::swap(&mut leaving, &mut self.state.remove_queue);
        let mut coming: Vec<Ent<Wrapper::KeyCode>> = Vec::new();
        std::mem::swap(&mut coming, &mut self.state.add_queue);
        sort_queue(&mut leaving);
        let ghost cleared = self@;
        assert(cleared.remove_queue =~= Seq::empty());
        assert(cleared.add_queue =~= Seq::empty());
        assert(cleared == (GameView {
            remove_queue: Seq::empty(),
            add_queue: Seq::empty(),
            ..old(self)@
        }));
        let n: usize = leaving.len();
        let mut k: usize = 0;
        while k < n
            invariant
                k <= n,
                n == leaving@.len(),
                self.events == old(self).events,
                self@.wf(),
                self@ == cleared.all_removed(leaving@, k as int),
                self@.has_room(coming@.len() as int),
            decreases n - k,
        {
            match leaving[k] {
                EntID::Wall(wall) => {
                    proof {
                        lemma_first_at(self@.walls, wall, 0);
                    }
                    self.remove_wall(wall)
                },
                EntID::Ball(ball) => {
                    proof {
                        lemma_first_at(self@.balls, ball, 0);
                    }
                    self.remove_ball(ball)
                },
                EntID::Paddle(paddle) => {
                    proof {
                        lemma_first_at(self@.paddles, paddle, 0);
                    }
                    self.remove_paddle(paddle)
                },
                EntID::Score(score) => {
                    proof {
                        lemma_first_at(self@.scores, score, 0);
                    }
                    self.remove_score(score)
                },
            }
            k += 1;
        }
        let ghost removed = self@;
        let m: usize = coming.len();
        let mut j: usize = 0;
        while j < m
            invariant
                j <= m,
                m == coming@.len(),
                self.events == old(self).events,
                self@.wf(),
                self@ == removed.all_added(ent_views(coming@), j as int),
                self@.has_room(m - j),
            decreases m - j,
        {
            match coming[j].copy() {
                Ent::Wall(wall) => {
                    self.add_wall(wall);
                },
                Ent::Ball(ball) => {
                    self.add_ball(ball);
                },
                Ent::Paddle(paddle) => {
                    self.add_paddle(paddle);
                },
                Ent::Score(score) => {
                    self.add_score(score);
                },
            }
            j += 1;
        }
    }
}

} // verus!
