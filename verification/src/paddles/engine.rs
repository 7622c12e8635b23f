//! A game of paddles, walls, balls and scores, run on four logics: what it
//! holds, and how entities come and go.

use crate::collision::aabb::AabbCollision;
use crate::collision::bodies::{Bodies, CollisionData, CollisionReaction};
use crate::collision::contact::Contact;
use crate::control::{
    control_events, first_action, follows, set_or_empty, with_validity, ControlEventType, KeyState, Action, ControlEvent, InputType, InputWrapper, KeyInput, KeyboardControl, Values,
};
use crate::geometry::{Vec2, LIMIT};
use crate::paddles::events::{
    watched, ActionView, EngineAction, EngineCollisionEvent, EngineCtrlEvent, EngineRsrcEvent,
    EntityMatch, Events, Watched,
};
use crate::paddles::ids::{
    bounce, first_at, lemma_first_at, lemma_names_tell_apart, spec_bounce, ActionID, BallID,
    CollisionEnt, EntID, EntType, PaddleID, RsrcPool, ScoreID, WallID,
};
use crate::paddles::state::State;
use crate::paddles::types::{ent_views, Ball, EntView, Paddle, Score, Wall, SCORE_MAX, SCORE_MIN};
use crate::physics::{events_of, next_position, next_velocity, PhysicsEvent, PointPhysics};
use crate::resources::{
    find_pool, first_pool, has_pool, insert_pool, pool_of, queued_events, queued_pools,
    remove_pool, with_pool, ResourceEventType, PoolValues, Pools, QueuedResources,
    ResourceEvent, Transaction,
};
use crate::Logic;
use vstd::prelude::*;

verus! {

/// The four logics of a game.
pub struct Logics<Wrapper: InputWrapper> {
    pub collision: AabbCollision<CollisionEnt>,
    pub physics: PointPhysics,
    pub resources: QueuedResources<RsrcPool>,
    pub control: KeyboardControl<ActionID, Wrapper>,
}

/// A game: its entities, its logics, and what it watches for.
///
/// Each paddle, wall and ball has a body in the collision logic: the paddles
/// come first, then the walls, then the balls. Each ball has a point in the
/// physics logic, each score a pool in the resource logic, and the keys of a
/// paddle are the set of bindings that has the number of the paddle's name.
pub struct Game<Wrapper: InputWrapper> {
    pub state: State<Wrapper::KeyCode>,
    pub logics: Logics<Wrapper>,
    pub events: Events<Wrapper::KeyCode>,
}

/// What a game holds, but for what it watches for.
pub struct GameView<KeyCode: Copy> {
    pub paddles: Seq<PaddleID>,
    pub walls: Seq<WallID>,
    pub balls: Seq<BallID>,
    pub scores: Seq<ScoreID>,
    pub paddle_id_max: usize,
    pub wall_id_max: usize,
    pub ball_id_max: usize,
    pub score_id_max: usize,
    pub remove_queue: Seq<EntID>,
    pub add_queue: Seq<EntView<KeyCode>>,
    pub bodies: Bodies<CollisionEnt>,
    pub contacts: Seq<Contact>,
    pub positions: Seq<Vec2>,
    pub velocities: Seq<Vec2>,
    pub accelerations: Seq<Vec2>,
    pub moves: Seq<PhysicsEvent>,
    pub key_map: Seq<Seq<Action<ActionID, KeyCode>>>,
    pub key_values: Seq<Seq<Values>>,
    pub keys: Seq<ControlEvent<ActionID>>,
    pub pools: Pools<RsrcPool>,
    pub transactions: Seq<(RsrcPool, Transaction<i64, RsrcPool>)>,
    pub completed: Seq<ResourceEvent<RsrcPool, i64>>,
}

/// What a game with these entities and these logics holds.
pub open spec fn game_view<Wrapper: InputWrapper>(
    state: State<Wrapper::KeyCode>,
    logics: Logics<Wrapper>,
) -> GameView<Wrapper::KeyCode> {
    GameView {
        paddles: state.paddles@,
        walls: state.walls@,
        balls: state.balls@,
        scores: state.scores@,
        paddle_id_max: state.paddle_id_max,
        wall_id_max: state.wall_id_max,
        ball_id_max: state.ball_id_max,
        score_id_max: state.score_id_max,
        remove_queue: state.remove_queue@,
        add_queue: ent_views(state.add_queue@),
        bodies: logics.collision.bodies(),
        contacts: logics.collision.contacts(),
        positions: logics.physics.positions@,
        velocities: logics.physics.velocities@,
        accelerations: logics.physics.accelerations@,
        moves: logics.physics.events@,
        key_map: logics.control.key_map(),
        key_values: logics.control.key_values(),
        keys: logics.control.reported(),
        pools: logics.resources.items@,
        transactions: logics.resources.transactions@,
        completed: logics.resources.completed@,
    }
}

impl<Wrapper: InputWrapper> View for Game<Wrapper> {
    type V = GameView<Wrapper::KeyCode>;

    open spec fn view(&self) -> GameView<Wrapper::KeyCode> {
        game_view(self.state, self.logics)
    }
}

/// Half of a length, as the half-extent of a body: nothing for a negative
/// length, and no more than the range allows.
pub open spec fn half_1d(length: i64) -> i64 {
    if length < 0 {
        0
    } else if length / 2 > LIMIT {
        LIMIT
    } else {
        (length / 2) as i64
    }
}

/// The half-extents of a body of the given size.
pub open spec fn half_of(size: Vec2) -> Vec2 {
    Vec2 { x: half_1d(size.x), y: half_1d(size.y) }
}

/// The center of a body of the given size whose corner of least coordinates is
/// `pos`, held to the range.
pub open spec fn center_of(pos: Vec2, size: Vec2) -> Vec2 {
    pos.spec_moved(half_of(size).x as int, half_of(size).y as int)
}

/// The half-extents of a body of the given size.
pub fn half_extent(size: Vec2) -> (half: Vec2)
    ensures
        half == half_of(size),
        half.is_extent(),
{
    let x: i64 = if size.x < 0 {
        0
    } else if size.x / 2 > LIMIT {
        LIMIT
    } else {
        size.x / 2
    };
    let y: i64 = if size.y < 0 {
        0
    } else if size.y / 2 > LIMIT {
        LIMIT
    } else {
        size.y / 2
    };
    Vec2 { x, y }
}

/// `sets` with one more item in the set `set`. Where there are not so many
/// sets yet, empty ones are put in up to that one.
pub open spec fn with_binding<T>(sets: Seq<Seq<T>>, set: int, item: T) -> Seq<Seq<T>> {
    Seq::new(
        if set < sets.len() {
            sets.len()
        } else {
            (set + 1) as nat
        },
        |s: int|
            if s == set {
                set_or_empty(sets, s).push(item)
            } else {
                set_or_empty(sets, s)
            },
    )
}

/// The binding that a paddle's control stands for.
pub open spec fn binding<KeyCode: Copy>(control: (ActionID, KeyCode, bool)) -> Action<
    ActionID,
    KeyCode,
> {
    Action {
        id: control.0,
        key_input: KeyInput { keycode: control.1 },
        is_valid: control.2,
        input_type: InputType::Digital,
    }
}

/// The key map once the first `upto` of the controls are bound in the set
/// `set`.
pub open spec fn bound_keys<KeyCode: Copy>(
    key_map: Seq<Seq<Action<ActionID, KeyCode>>>,
    set: int,
    controls: Seq<(ActionID, KeyCode, bool)>,
    upto: int,
) -> Seq<Seq<Action<ActionID, KeyCode>>>
    decreases upto,
{
    if upto <= 0 {
        key_map
    } else {
        with_binding(bound_keys(key_map, set, controls, upto - 1), set, binding(controls[upto - 1]))
    }
}

/// The values of the actions once `count` more are bound in the set `set`.
pub open spec fn bound_values(values: Seq<Seq<Values>>, set: int, count: int) -> Seq<Seq<Values>>
    decreases count,
{
    if count <= 0 {
        values
    } else {
        with_binding(bound_values(values, set, count - 1), set, Values::spec_new())
    }
}

/// Every action of the key map is digital.
pub open spec fn all_digital<KeyCode: Copy>(key_map: Seq<Seq<Action<ActionID, KeyCode>>>) -> bool {
    forall|s: int, a: int|
        0 <= s < key_map.len() && 0 <= a < key_map[s].len() ==> (#[trigger] key_map[s][a]).input_type
            == InputType::Digital
}

/// The pools without the pool that `id` stands for.
pub open spec fn without_pool(pools: Pools<RsrcPool>, id: RsrcPool) -> Pools<RsrcPool> {
    if has_pool(pools, id) {
        pools.remove(first_pool(pools, id, 0))
    } else {
        pools
    }
}

/// The pools with a pool under the name `id`: in place of the one that the
/// name stands for, or behind the others.
pub open spec fn with_named_pool(pools: Pools<RsrcPool>, id: RsrcPool, values: PoolValues<i64>) -> Pools<
    RsrcPool,
> {
    if has_pool(pools, id) {
        with_pool(pools, id, values)
    } else {
        pools.push((id, values))
    }
}

impl<KeyCode: Copy> GameView<KeyCode> {
    /// The number of bodies.
    pub open spec fn count(self) -> int {
        (self.paddles.len() + self.walls.len() + self.balls.len()) as int
    }

    /// The logics hold what the entities need: a body for each paddle, wall
    /// and ball, and a point for each ball. The values of the actions go with
    /// the key map, and every action is digital.
    pub open spec fn wf(self) -> bool {
        &&& self.bodies.wf()
        &&& self.bodies.len() == self.count()
        &&& self.positions.len() == self.balls.len()
        &&& self.velocities.len() == self.balls.len()
        &&& self.accelerations.len() == self.balls.len()
        &&& self.key_values.len() == self.key_map.len()
        &&& forall|s: int|
            0 <= s < self.key_map.len() ==> (#[trigger] self.key_values[s]).len()
                == self.key_map[s].len()
        &&& all_digital(self.key_map)
    }

    /// The game with one more wall.
    pub open spec fn with_wall(self, wall: Wall) -> Self {
        GameView {
            walls: self.walls.push(WallID(self.wall_id_max)),
            wall_id_max: (self.wall_id_max + 1) as usize,
            bodies: self.bodies.with_body_at(
                (self.paddles.len() + self.walls.len()) as int,
                center_of(wall.pos, wall.size),
                half_of(wall.size),
                Vec2::spec_zero(),
                CollisionData { solid: true, fixed: true, id: CollisionEnt::Wall },
            ),
            ..self
        }
    }

    /// The game with one more ball. Its body is at rest; its point moves as
    /// the ball does.
    pub open spec fn with_ball(self, ball: Ball) -> Self {
        GameView {
            balls: self.balls.push(BallID(self.ball_id_max)),
            ball_id_max: (self.ball_id_max + 1) as usize,
            bodies: self.bodies.with_body_at(
                self.count(),
                center_of(ball.pos, ball.size),
                half_of(ball.size),
                Vec2::spec_zero(),
                CollisionData { solid: true, fixed: false, id: CollisionEnt::Ball },
            ),
            positions: self.positions.push(ball.pos),
            velocities: self.velocities.push(ball.vel),
            accelerations: self.accelerations.push(Vec2::spec_zero()),
            ..self
        }
    }

    /// The game with one more paddle.
    pub open spec fn with_paddle(
        self,
        pos: Vec2,
        size: Vec2,
        controls: Seq<(ActionID, KeyCode, bool)>,
    ) -> Self {
        GameView {
            paddles: self.paddles.push(PaddleID(self.paddle_id_max)),
            paddle_id_max: (self.paddle_id_max + 1) as usize,
            bodies: self.bodies.with_body_at(
                self.paddles.len() as int,
                center_of(pos, size),
                half_of(size),
                Vec2::spec_zero(),
                CollisionData { solid: true, fixed: true, id: CollisionEnt::Paddle },
            ),
            key_map: bound_keys(
                self.key_map,
                self.paddle_id_max as int,
                controls,
                controls.len() as int,
            ),
            key_values: bound_values(
                self.key_values,
                self.paddle_id_max as int,
                controls.len() as int,
            ),
            ..self
        }
    }

    /// The game with one more score.
    pub open spec fn with_score(self, score: Score) -> Self {
        GameView {
            scores: self.scores.push(ScoreID(self.score_id_max)),
            score_id_max: (self.score_id_max + 1) as usize,
            pools: with_named_pool(
                self.pools,
                RsrcPool::Score(ScoreID(self.score_id_max)),
                PoolValues { val: score.value as i64, min: SCORE_MIN, max: SCORE_MAX },
            ),
            ..self
        }
    }

    /// The game without a wall. A wall that is not there leaves nothing.
    pub open spec fn without_wall(self, wall: WallID) -> Self {
        let at = first_at(self.walls, wall, 0);
        if at < self.walls.len() {
            GameView {
                walls: self.walls.remove(at),
                bodies: self.bodies.without(self.paddles.len() + at),
                ..self
            }
        } else {
            self
        }
    }

    /// The game without a ball, its body and its point.
    pub open spec fn without_ball(self, ball: BallID) -> Self {
        let at = first_at(self.balls, ball, 0);
        if at < self.balls.len() {
            GameView {
                balls: self.balls.remove(at),
                bodies: self.bodies.without(self.paddles.len() + self.walls.len() + at),
                positions: self.positions.remove(at),
                velocities: self.velocities.remove(at),
                accelerations: self.accelerations.remove(at),
                ..self
            }
        } else {
            self
        }
    }

    /// The game without a paddle and its body. The set of bindings at the
    /// paddle's place among the paddles leaves too, where there is one.
    pub open spec fn without_paddle(self, paddle: PaddleID) -> Self {
        let at = first_at(self.paddles, paddle, 0);
        if at < self.paddles.len() {
            GameView {
                paddles: self.paddles.remove(at),
                bodies: self.bodies.without(at),
                key_map: if at < self.key_map.len() {
                    self.key_map.remove(at)
                } else {
                    self.key_map
                },
                key_values: if at < self.key_map.len() {
                    self.key_values.remove(at)
                } else {
                    self.key_values
                },
                ..self
            }
        } else {
            self
        }
    }

    /// The game without a score and its pool.
    pub open spec fn without_score(self, score: ScoreID) -> Self {
        let at = first_at(self.scores, score, 0);
        if at < self.scores.len() {
            GameView {
                scores: self.scores.remove(at),
                pools: without_pool(self.pools, RsrcPool::Score(score)),
                ..self
            }
        } else {
            self
        }
    }

    /// The entity is one of the game.
    pub open spec fn has(self, id: EntID) -> bool {
        match id {
            EntID::Paddle(p) => self.paddles.contains(p),
            EntID::Wall(w) => self.walls.contains(w),
            EntID::Ball(b) => self.balls.contains(b),
            EntID::Score(s) => self.scores.contains(s),
        }
    }

    /// The index of the body of an entity.
    pub open spec fn col_idx(self, id: EntID) -> int {
        match id {
            EntID::Paddle(p) => first_at(self.paddles, p, 0),
            EntID::Wall(w) => first_at(self.walls, w, 0) + self.paddles.len(),
            EntID::Ball(b) => first_at(self.balls, b, 0) + self.paddles.len() + self.walls.len(),
            EntID::Score(_) => self.count(),
        }
    }

    /// The entity of body `idx`.
    pub open spec fn ent_at(self, idx: int) -> EntID {
        if idx < self.paddles.len() {
            EntID::Paddle(self.paddles[idx])
        } else if idx < self.paddles.len() + self.walls.len() {
            EntID::Wall(self.walls[idx - self.paddles.len()])
        } else if idx < self.count() {
            EntID::Ball(self.balls[idx - self.paddles.len() - self.walls.len()])
        } else {
            EntID::Score(self.scores[idx - self.count()])
        }
    }

    /// The entities that a pattern names, in the order in which they are
    /// noted for removal: walls, paddles, balls, scores.
    pub open spec fn matching(self, pattern: EntityMatch) -> Seq<EntID> {
        match pattern {
            EntityMatch::ByID(id) => seq![id],
            EntityMatch::ByType(EntType::Wall) => wall_ents(self.walls),
            EntityMatch::ByType(EntType::Paddle) => paddle_ents(self.paddles),
            EntityMatch::ByType(EntType::Ball) => ball_ents(self.balls),
            EntityMatch::ByType(EntType::Score) => score_ents(self.scores),
            EntityMatch::All => wall_ents(self.walls) + paddle_ents(self.paddles) + ball_ents(
                self.balls,
            ) + score_ents(self.scores),
        }
    }

    /// The game once an action is done. An action on an entity that is not
    /// there does nothing, and a position is held to the range.
    ///
    /// A ball that bounces has the velocity of its point turned around. The
    /// point of a ball is the one that has the number of the ball's name; its
    /// body is found by its place among the balls.
    pub open spec fn performed(self, action: ActionView<KeyCode>) -> Self {
        match action {
            ActionView::BounceBall(ball, Some(ent)) => {
                if ent.collides() && self.has(EntID::Ball(ball)) && self.has(ent) && ball.0
                    < self.velocities.len() {
                    GameView {
                        velocities: self.velocities.update(
                            ball.0 as int,
                            spec_bounce(
                                self.velocities[ball.0 as int],
                                self.bodies.sides_touched(
                                    self.col_idx(EntID::Ball(ball)),
                                    self.col_idx(ent),
                                ),
                            ),
                        ),
                        ..self
                    }
                } else {
                    self
                }
            },
            ActionView::BounceBall(_, None) => self,
            ActionView::SetBallVel(ball, vel) => {
                if ball.0 < self.velocities.len() {
                    GameView { velocities: self.velocities.update(ball.0 as int, vel), ..self }
                } else {
                    self
                }
            },
            ActionView::SetBallPos(ball, pos) => {
                if self.has(EntID::Ball(ball)) && ball.0 < self.positions.len() {
                    GameView {
                        positions: self.positions.update(ball.0 as int, pos),
                        bodies: Bodies {
                            centers: self.bodies.centers.update(
                                self.col_idx(EntID::Ball(ball)),
                                pos.spec_moved(0, 0),
                            ),
                            ..self.bodies
                        },
                        ..self
                    }
                } else {
                    self
                }
            },
            ActionView::SetPaddlePos(paddle, pos) => {
                if self.has(EntID::Paddle(paddle)) {
                    GameView {
                        bodies: Bodies {
                            centers: self.bodies.centers.update(
                                self.col_idx(EntID::Paddle(paddle)),
                                pos.spec_moved(0, 0),
                            ),
                            ..self.bodies
                        },
                        ..self
                    }
                } else {
                    self
                }
            },
            ActionView::MovePaddleBy(paddle, by) => {
                if self.has(EntID::Paddle(paddle)) {
                    let at = self.col_idx(EntID::Paddle(paddle));
                    GameView {
                        bodies: Bodies {
                            centers: self.bodies.centers.update(
                                at,
                                self.bodies.centers[at].spec_moved(by.x as int, by.y as int),
                            ),
                            velocities: self.bodies.velocities.update(at, by),
                            ..self.bodies
                        },
                        ..self
                    }
                } else {
                    self
                }
            },
            ActionView::SetKeyValid(paddle, id) => {
                if paddle.0 < self.key_map.len() {
                    GameView { key_map: with_validity(self.key_map, paddle.0, id, true), ..self }
                } else {
                    self
                }
            },
            ActionView::SetKeyInvalid(paddle, id) => {
                if paddle.0 < self.key_map.len() {
                    GameView { key_map: with_validity(self.key_map, paddle.0, id, false), ..self }
                } else {
                    self
                }
            },
            ActionView::ChangeScoreBy(score, by) => GameView {
                transactions: self.transactions.push(
                    (RsrcPool::Score(score), Transaction::Change(by as i64)),
                ),
                ..self
            },
            ActionView::ChangeScore(score, to) => GameView {
                transactions: self.transactions.push(
                    (RsrcPool::Score(score), Transaction::SetValue(to as i64)),
                ),
                ..self
            },
            ActionView::RemoveEntity(Some(pattern)) => GameView {
                remove_queue: queue_all(
                    self.remove_queue,
                    self.matching(pattern),
                    self.matching(pattern).len() as int,
                ),
                ..self
            },
            ActionView::RemoveEntity(None) => self,
            ActionView::AddEntity(ent) => GameView { add_queue: self.add_queue.push(ent), ..self },
        }
    }

    /// The game once the first `upto` of the actions are done, in order.
    pub open spec fn all_performed(self, actions: Seq<ActionView<KeyCode>>, upto: int) -> Self
        decreases upto,
    {
        if upto <= 0 {
            self
        } else {
            self.all_performed(actions, upto - 1).performed(actions[upto - 1])
        }
    }

    /// The two games have the same entities, and their logics reported the
    /// same in their last steps.
    pub open spec fn same_frame(self, other: Self) -> bool {
        &&& self.paddles == other.paddles
        &&& self.walls == other.walls
        &&& self.balls == other.balls
        &&& self.scores == other.scores
        &&& self.contacts == other.contacts
        &&& self.keys == other.keys
        &&& self.pools == other.pools
        &&& self.completed == other.completed
    }

    /// The game with other values of the actions, and with the key events that
    /// these values give.
    pub open spec fn with_keys(self, values: Seq<Seq<Values>>) -> Self {
        GameView {
            key_values: values,
            keys: control_events(self.key_map, values, self.key_map.len() as int),
            ..self
        }
    }

    /// The game once it has reacted to the first `upto` of the key events that
    /// it watches for: where the control logic reported such an event, what is
    /// to be done then is done, in order.
    pub open spec fn control_reacted(
        self,
        list: Watched<EngineCtrlEvent, KeyCode>,
        upto: int,
    ) -> Self
        decreases upto,
    {
        if upto <= 0 {
            self
        } else {
            let before = self.control_reacted(list, upto - 1);
            if key_happened(before.keys, list[upto - 1].0) {
                before.all_performed(list[upto - 1].1, list[upto - 1].1.len() as int)
            } else {
                before
            }
        }
    }

    /// The game once the physics logic has taken a step and the body of each
    /// ball has been put where its point now is, with the point's velocity. The
    /// body of the ball at place `k` among the balls goes with point `k`.
    pub open spec fn physics_stepped(self) -> Self {
        let first = self.paddles.len() + self.walls.len();
        let velocities = Seq::new(
            self.positions.len(),
            |k: int| next_velocity(self.velocities[k], self.accelerations[k]),
        );
        let positions = Seq::new(
            self.positions.len(),
            |k: int| next_position(self.positions[k], self.velocities[k], self.accelerations[k]),
        );
        GameView {
            positions,
            velocities,
            moves: events_of(self.velocities, self.accelerations, self.positions.len() as int),
            bodies: Bodies {
                centers: Seq::new(
                    self.bodies.centers.len(),
                    |b: int|
                        if first <= b {
                            positions[b - first].spec_moved(
                                self.bodies.half_sizes[b].x as int,
                                self.bodies.half_sizes[b].y as int,
                            )
                        } else {
                            self.bodies.centers[b]
                        },
                ),
                velocities: Seq::new(
                    self.bodies.velocities.len(),
                    |b: int|
                        if first <= b {
                            velocities[b - first]
                        } else {
                            self.bodies.velocities[b]
                        },
                ),
                ..self.bodies
            },
            ..self
        }
    }

    /// The game once the collision logic has taken a step and the point of
    /// each ball has been put at the corner of its body.
    pub open spec fn collision_stepped(self) -> Self {
        let first = self.paddles.len() + self.walls.len();
        let bodies = self.bodies.step();
        GameView {
            bodies,
            contacts: self.bodies.step_contacts(),
            positions: Seq::new(
                self.positions.len(),
                |k: int|
                    Vec2 {
                        x: (bodies.centers[first + k].x - bodies.half_sizes[first + k].x) as i64,
                        y: (bodies.centers[first + k].y - bodies.half_sizes[first + k].y) as i64,
                    },
            ),
            ..self
        }
    }

    /// Whether a pattern names the entity of body `idx`.
    pub open spec fn fits(self, pattern: EntityMatch, idx: int) -> bool {
        match pattern {
            EntityMatch::ByID(id) => id.collides() && self.has(id) && self.col_idx(id) == idx,
            EntityMatch::ByType(kind) => kind_of(self.ent_at(idx)) == kind,
            EntityMatch::All => true,
        }
    }

    /// Whether a contact is one that is watched for.
    pub open spec fn contact_happened(self, event: EngineCollisionEvent, contact: Contact) -> bool {
        match event {
            EngineCollisionEvent::Match(first, second) => self.fits(first, contact.i as int)
                && self.fits(second, contact.j as int),
        }
    }

    /// What an action says at a contact: where it names no entity to bounce
    /// off or to remove, it means the second body of the contact.
    pub open spec fn at_contact(self, action: ActionView<KeyCode>, contact: Contact) -> ActionView<
        KeyCode,
    > {
        match action {
            ActionView::BounceBall(ball, None) => ActionView::BounceBall(
                ball,
                Some(self.ent_at(contact.j as int)),
            ),
            ActionView::RemoveEntity(None) => ActionView::RemoveEntity(
                Some(EntityMatch::ByID(self.ent_at(contact.j as int))),
            ),
            _ => action,
        }
    }

    /// The game once the first `upto` of the actions are done at a contact.
    pub open spec fn contact_performed(
        self,
        actions: Seq<ActionView<KeyCode>>,
        contact: Contact,
        upto: int,
    ) -> Self
        decreases upto,
    {
        if upto <= 0 {
            self
        } else {
            let before = self.contact_performed(actions, contact, upto - 1);
            before.performed(before.at_contact(actions[upto - 1], contact))
        }
    }

    /// The game once it has reacted to the first `upto` contacts of the last
    /// step, as far as they are watched for.
    pub open spec fn contacts_reacted(
        self,
        event: EngineCollisionEvent,
        actions: Seq<ActionView<KeyCode>>,
        upto: int,
    ) -> Self
        decreases upto,
    {
        if upto <= 0 {
            self
        } else {
            let before = self.contacts_reacted(event, actions, upto - 1);
            if before.contact_happened(event, before.contacts[upto - 1]) {
                before.contact_performed(actions, before.contacts[upto - 1], actions.len() as int)
            } else {
                before
            }
        }
    }

    /// The game once it has reacted to the contacts of the last step, for the
    /// first `upto` of the kinds of contact that it watches for.
    pub open spec fn collision_reacted(
        self,
        list: Watched<EngineCollisionEvent, KeyCode>,
        upto: int,
    ) -> Self
        decreases upto,
    {
        if upto <= 0 {
            self
        } else {
            let before = self.collision_reacted(list, upto - 1);
            before.contacts_reacted(list[upto - 1].0, list[upto - 1].1, before.contacts.len() as int)
        }
    }

    /// The game once the resource logic has taken a step.
    pub open spec fn resources_stepped(self) -> Self {
        GameView {
            pools: queued_pools(self.pools, self.transactions, self.transactions.len() as int),
            completed: queued_events(
                self.pools,
                self.transactions,
                self.transactions.len() as int,
            ),
            transactions: Seq::empty(),
            ..self
        }
    }

    /// The game once it has reacted to the first `upto` of the changes of
    /// scores that it watches for.
    pub open spec fn resources_reacted(
        self,
        list: Watched<EngineRsrcEvent, KeyCode>,
        upto: int,
    ) -> Self
        decreases upto,
    {
        if upto <= 0 {
            self
        } else {
            let before = self.resources_reacted(list, upto - 1);
            if score_happened(before.pools, before.completed, list[upto - 1].0) {
                before.all_performed(list[upto - 1].1, list[upto - 1].1.len() as int)
            } else {
                before
            }
        }
    }

    /// Every contact is one of two bodies of the game.
    pub open spec fn contacts_fit(self) -> bool {
        forall|c: int|
            0 <= c < self.contacts.len() ==> (#[trigger] self.contacts[c]).i < self.count()
                && self.contacts[c].j < self.count()
    }
}

/// The kind of an entity.
pub open spec fn kind_of(id: EntID) -> EntType {
    match id {
        EntID::Ball(_) => EntType::Ball,
        EntID::Paddle(_) => EntType::Paddle,
        EntID::Wall(_) => EntType::Wall,
        EntID::Score(_) => EntType::Score,
    }
}

/// Whether a key event is the one watched for.
pub open spec fn key_matches(key: ControlEvent<ActionID>, event: EngineCtrlEvent) -> bool {
    match event {
        EngineCtrlEvent::MovePaddle(paddle, id) => key.action_id == id && key.set == paddle.0
            && key.event_type == ControlEventType::KeyHeld,
        EngineCtrlEvent::ServePressed(paddle, id) => key.action_id == id && key.set == paddle.0
            && key.event_type == ControlEventType::KeyPressed,
    }
}

/// Whether the control logic reported the key event that is watched for.
pub open spec fn key_happened(keys: Seq<ControlEvent<ActionID>>, event: EngineCtrlEvent) -> bool {
    exists|k: int| 0 <= k < keys.len() && key_matches(#[trigger] keys[k], event)
}

/// Whether what became of a transaction is the change that is watched for.
pub open spec fn score_matches(done: ResourceEvent<RsrcPool, i64>, event: EngineRsrcEvent) -> bool {
    match event {
        EngineRsrcEvent::ScoreIncreased(score) => done.pool == RsrcPool::Score(score)
            && done.event_type == ResourceEventType::PoolUpdated && done.transaction
            == Transaction::<i64, RsrcPool>::Change(1),
        EngineRsrcEvent::ScoreReset(score) => done.pool == RsrcPool::Score(score)
            && done.event_type == ResourceEventType::PoolUpdated && done.transaction
            == Transaction::<i64, RsrcPool>::SetValue(0),
        EngineRsrcEvent::ScoreEquals(score, _) => done.pool == RsrcPool::Score(score)
            && done.event_type == ResourceEventType::PoolUpdated,
    }
}

/// Whether the resource logic reported the change of a score that is watched
/// for. A score is watched for a number only where it has a pool, and then
/// where the pool now holds that number.
pub open spec fn score_happened(
    pools: Pools<RsrcPool>,
    completed: Seq<ResourceEvent<RsrcPool, i64>>,
    event: EngineRsrcEvent,
) -> bool {
    &&& exists|k: int| 0 <= k < completed.len() && score_matches(#[trigger] completed[k], event)
    &&& match event {
        EngineRsrcEvent::ScoreEquals(score, value) => has_pool(pools, RsrcPool::Score(score))
            && pool_of(pools, RsrcPool::Score(score)).val == value,
        _ => true,
    }
}

/// The walls as entities.
pub open spec fn wall_ents(walls: Seq<WallID>) -> Seq<EntID> {
    Seq::new(walls.len(), |k: int| EntID::Wall(walls[k]))
}

/// The paddles as entities.
pub open spec fn paddle_ents(paddles: Seq<PaddleID>) -> Seq<EntID> {
    Seq::new(paddles.len(), |k: int| EntID::Paddle(paddles[k]))
}

/// The balls as entities.
pub open spec fn ball_ents(balls: Seq<BallID>) -> Seq<EntID> {
    Seq::new(balls.len(), |k: int| EntID::Ball(balls[k]))
}

/// The scores as entities.
pub open spec fn score_ents(scores: Seq<ScoreID>) -> Seq<EntID> {
    Seq::new(scores.len(), |k: int| EntID::Score(scores[k]))
}

/// The queue with one more entity, unless it holds that entity already.
pub open spec fn queue_one(queue: Seq<EntID>, id: EntID) -> Seq<EntID> {
    if queue.contains(id) {
        queue
    } else {
        queue.push(id)
    }
}

/// The queue once the first `upto` of the entities are put in, one by one.
pub open spec fn queue_all(queue: Seq<EntID>, ids: Seq<EntID>, upto: int) -> Seq<EntID>
    decreases upto,
{
    if upto <= 0 {
        queue
    } else {
        queue_one(queue_all(queue, ids, upto - 1), ids[upto - 1])
    }
}

/// Putting in two lists one after the other is putting in the two as one.
pub proof fn lemma_queue_all_append(queue: Seq<EntID>, first: Seq<EntID>, second: Seq<EntID>, upto: int)
    requires
        0 <= upto <= second.len(),
    ensures
        queue_all(queue_all(queue, first, first.len() as int), second, upto) == queue_all(
            queue,
            first + second,
            first.len() + upto,
        ),
    decreases upto,
{
    if upto > 0 {
        lemma_queue_all_append(queue, first, second, upto - 1);
        assert((first + second)[first.len() + upto - 1] == second[upto - 1]);
    } else {
        lemma_queue_all_prefix(queue, first, first + second, first.len() as int);
    }
}

/// What is put in depends only on the entities that are put in.
pub proof fn lemma_queue_all_prefix(queue: Seq<EntID>, ids: Seq<EntID>, more: Seq<EntID>, upto: int)
    requires
        0 <= upto <= ids.len(),
        ids.len() <= more.len(),
        forall|k: int| 0 <= k < ids.len() ==> ids[k] == more[k],
    ensures
        queue_all(queue, ids, upto) == queue_all(queue, more, upto),
    decreases upto,
{
    if upto > 0 {
        lemma_queue_all_prefix(queue, ids, more, upto - 1);
    }
}

/// The first place of a name in a list, or `None` where the list does not
/// hold it.
pub fn place_of_paddle(ids: &Vec<PaddleID>, id: PaddleID) -> (at: Option<usize>)
    ensures
        match at {
            Some(k) => k == first_at(ids@, id, 0) && k < ids@.len(),
            None => first_at(ids@, id, 0) == ids@.len(),
        },
{
    let n: usize = ids.len();
    let mut k: usize = 0;
    while k < n
        invariant
            k <= n,
            n == ids@.len(),
            first_at(ids@, id, 0) == first_at(ids@, id, k as int),
        decreases n - k,
    {
        if ids[k].0 == id.0 {
            return Some(k);
        }
        k += 1;
    }
    None
}

/// The first place of a name in a list, or `None` where the list does not
/// hold it.
pub fn place_of_wall(ids: &Vec<WallID>, id: WallID) -> (at: Option<usize>)
    ensures
        match at {
            Some(k) => k == first_at(ids@, id, 0) && k < ids@.len(),
            None => first_at(ids@, id, 0) == ids@.len(),
        },
{
    let n: usize = ids.len();
    let mut k: usize = 0;
    while k < n
        invariant
            k <= n,
            n == ids@.len(),
            first_at(ids@, id, 0) == first_at(ids@, id, k as int),
        decreases n - k,
    {
        if ids[k].0 == id.0 {
            return Some(k);
        }
        k += 1;
    }
    None
}

/// The first place of a name in a list, or `None` where the list does not
/// hold it.
pub fn place_of_ball(ids: &Vec<BallID>, id: BallID) -> (at: Option<usize>)
    ensures
        match at {
            Some(k) => k == first_at(ids@, id, 0) && k < ids@.len(),
            None => first_at(ids@, id, 0) == ids@.len(),
        },
{
    let n: usize = ids.len();
    let mut k: usize = 0;
    while k < n
        invariant
            k <= n,
            n == ids@.len(),
            first_at(ids@, id, 0) == first_at(ids@, id, k as int),
        decreases n - k,
    {
        if ids[k].0 == id.0 {
            return Some(k);
        }
        k += 1;
    }
    None
}

/// The first place of a name in a list, or `None` where the list does not
/// hold it.
pub fn place_of_score(ids: &Vec<ScoreID>, id: ScoreID) -> (at: Option<usize>)
    ensures
        match at {
            Some(k) => k == first_at(ids@, id, 0) && k < ids@.len(),
            None => first_at(ids@, id, 0) == ids@.len(),
        },
{
    let n: usize = ids.len();
    let mut k: usize = 0;
    while k < n
        invariant
            k <= n,
            n == ids@.len(),
            first_at(ids@, id, 0) == first_at(ids@, id, k as int),
        decreases n - k,
    {
        if ids[k].0 == id.0 {
            return Some(k);
        }
        k += 1;
    }
    None
}

/// Two states hold the same entities and are to add the same ones; only what
/// is to be removed may differ.
pub open spec fn only_queue_differs<KeyCode: Copy>(a: State<KeyCode>, b: State<KeyCode>) -> bool {
    &&& a.add_queue == b.add_queue
    &&& a.paddles == b.paddles
    &&& a.walls == b.walls
    &&& a.balls == b.balls
    &&& a.scores == b.scores
    &&& a.paddle_id_max == b.paddle_id_max
    &&& a.wall_id_max == b.wall_id_max
    &&& a.ball_id_max == b.ball_id_max
    &&& a.score_id_max == b.score_id_max
}

/// Whether the entity is one of the state.
pub fn holds<KeyCode: Copy>(state: &State<KeyCode>, id: EntID) -> (b: bool)
    ensures
        b == state.has(id),
{
    match id {
        EntID::Paddle(p) => {
            proof {
                lemma_first_at(state.paddles@, p, 0);
            }
            place_of_paddle(&state.paddles, p).is_some()
        },
        EntID::Wall(w) => {
            proof {
                lemma_first_at(state.walls@, w, 0);
            }
            place_of_wall(&state.walls, w).is_some()
        },
        EntID::Ball(b) => {
            proof {
                lemma_first_at(state.balls@, b, 0);
            }
            place_of_ball(&state.balls, b).is_some()
        },
        EntID::Score(s) => {
            proof {
                lemma_first_at(state.scores@, s, 0);
            }
            place_of_score(&state.scores, s).is_some()
        },
    }
}

/// Notes that every wall is to be removed.
fn queue_walls<KeyCode: Copy>(state: &mut State<KeyCode>)
    ensures
        final(state).remove_queue@ == queue_all(
            old(state).remove_queue@,
            wall_ents(old(state).walls@),
            old(state).walls@.len() as int,
        ),
        only_queue_differs(*final(state), *old(state)),
{
    let n: usize = state.walls.len();
    let mut k: usize = 0;
    while k < n
        invariant
            k <= n,
            n == state.walls@.len(),
            only_queue_differs(*state, *old(state)),
            state.remove_queue@ == queue_all(
                old(state).remove_queue@,
                wall_ents(old(state).walls@),
                k as int,
            ),
        decreases n - k,
    {
        let id = state.walls[k];
        state.queue_remove(EntID::Wall(id));
        k += 1;
    }
}

/// Notes that every paddle is to be removed.
fn queue_paddles<KeyCode: Copy>(state: &mut State<KeyCode>)
    ensures
        final(state).remove_queue@ == queue_all(
            old(state).remove_queue@,
            paddle_ents(old(state).paddles@),
            old(state).paddles@.len() as int,
        ),
        only_queue_differs(*final(state), *old(state)),
{
    let n: usize = state.paddles.len();
    let mut k: usize = 0;
    while k < n
        invariant
            k <= n,
            n == state.paddles@.len(),
            only_queue_differs(*state, *old(state)),
            state.remove_queue@ == queue_all(
                old(state).remove_queue@,
                paddle_ents(old(state).paddles@),
                k as int,
            ),
        decreases n - k,
    {
        let id = state.paddles[k];
        state.queue_remove(EntID::Paddle(id));
        k += 1;
    }
}

/// Notes that every ball is to be removed.
fn queue_balls<KeyCode: Copy>(state: &mut State<KeyCode>)
    ensures
        final(state).remove_queue@ == queue_all(
            old(state).remove_queue@,
            ball_ents(old(state).balls@),
            old(state).balls@.len() as int,
        ),
        only_queue_differs(*final(state), *old(state)),
{
    let n: usize = state.balls.len();
    let mut k: usize = 0;
    while k < n
        invariant
            k <= n,
            n == state.balls@.len(),
            only_queue_differs(*state, *old(state)),
            state.remove_queue@ == queue_all(
                old(state).remove_queue@,
                ball_ents(old(state).balls@),
                k as int,
            ),
        decreases n - k,
    {
        let id = state.balls[k];
        state.queue_remove(EntID::Ball(id));
        k += 1;
    }
}

/// Notes that every score is to be removed.
fn queue_scores<KeyCode: Copy>(state: &mut State<KeyCode>)
    ensures
        final(state).remove_queue@ == queue_all(
            old(state).remove_queue@,
            score_ents(old(state).scores@),
            old(state).scores@.len() as int,
        ),
        only_queue_differs(*final(state), *old(state)),
{
    let n: usize = state.scores.len();
    let mut k: usize = 0;
    while k < n
        invariant
            k <= n,
            n == state.scores@.len(),
            only_queue_differs(*state, *old(state)),
            state.remove_queue@ == queue_all(
                old(state).remove_queue@,
                score_ents(old(state).scores@),
                k as int,
            ),
        decreases n - k,
    {
        let id = state.scores[k];
        state.queue_remove(EntID::Score(id));
        k += 1;
    }
}

/// Does what an action says, on the entities and the logics of a game.
pub fn perform_action<Wrapper: InputWrapper>(
    action: &EngineAction<Wrapper::KeyCode>,
    state: &mut State<Wrapper::KeyCode>,
    logics: &mut Logics<Wrapper>,
)
    requires
        game_view(*old(state), *old(logics)).wf(),
    ensures
        game_view(*final(state), *final(logics)) == game_view(*old(state), *old(logics)).performed(
            action@,
        ),
        game_view(*final(state), *final(logics)).wf(),
        game_view(*final(state), *final(logics)).same_frame(game_view(*old(state), *old(logics))),
{
    let ghost before = game_view(*state, *logics);
    match action {
        EngineAction::BounceBall(ball, Some(ent)) => {
            let collides = match ent {
                EntID::Score(_) => false,
                _ => true,
            };
            if collides && holds(state, EntID::Ball(*ball)) && holds(state, *ent) && ball.idx()
                < logics.physics.velocities.len() {
                let ball_idx = state.get_col_idx(EntID::Ball(*ball));
                let ent_idx = state.get_col_idx(*ent);
                let sides = logics.collision.sides_touched(ball_idx, ent_idx);
                let vel = logics.physics.velocities[ball.idx()];
                logics.physics.velocities.set(ball.idx(), bounce(vel, sides));
            }
        },
        EngineAction::BounceBall(_, None) => {},
        EngineAction::SetBallVel(ball, vel) => {
            if ball.idx() < logics.physics.velocities.len() {
                logics.physics.velocities.set(ball.idx(), *vel);
            }
        },
        EngineAction::SetBallPos(ball, pos) => {
            if holds(state, EntID::Ball(*ball)) && ball.idx() < logics.physics.positions.len() {
                logics.physics.positions.set(ball.idx(), *pos);
                let col_idx = state.get_col_idx(EntID::Ball(*ball));
                logics.collision.handle_predicate(
                    &CollisionReaction::SetCenter(col_idx, pos.moved(0, 0)),
                );
            }
        },
        EngineAction::SetPaddlePos(paddle, pos) => {
            if holds(state, EntID::Paddle(*paddle)) {
                let col_idx = state.get_col_idx(EntID::Paddle(*paddle));
                logics.collision.handle_predicate(
                    &CollisionReaction::SetCenter(col_idx, pos.moved(0, 0)),
                );
            }
        },
        EngineAction::MovePaddleBy(paddle, by) => {
            if holds(state, EntID::Paddle(*paddle)) {
                let col_idx = state.get_col_idx(EntID::Paddle(*paddle));
                let center = *logics.collision.body(col_idx).center;
                let new_pos = center.moved(by.x, by.y);
                logics.collision.handle_predicate(&CollisionReaction::SetVel(col_idx, *by));
                logics.collision.handle_predicate(&CollisionReaction::SetCenter(col_idx, new_pos));
            }
        },
        EngineAction::SetKeyValid(paddle, id) => {
            if paddle.idx() < logics.control.set_count() {
                proof {
                    lemma_names_tell_apart();
                    lemma_validity_keeps_shape(before.key_map, paddle.0, *id, true);
                }
                logics.control.set_key_valid(paddle.idx(), *id, true);
            }
        },
        EngineAction::SetKeyInvalid(paddle, id) => {
            if paddle.idx() < logics.control.set_count() {
                proof {
                    lemma_names_tell_apart();
                    lemma_validity_keeps_shape(before.key_map, paddle.0, *id, false);
                }
                logics.control.set_key_valid(paddle.idx(), *id, false);
            }
        },
        EngineAction::ChangeScoreBy(score, by) => {
            let amount: i64 = *by as i64;
            logics.resources.transactions.push((RsrcPool::Score(*score), Transaction::Change(amount)));
        },
        EngineAction::ChangeScore(score, to) => {
            let amount: i64 = *to as i64;
            logics.resources.transactions.push(
                (RsrcPool::Score(*score), Transaction::SetValue(amount)),
            );
        },
        EngineAction::RemoveEntity(Some(pattern)) => {
            match pattern {
                EntityMatch::ByID(id) => {
                    assert(queue_all(before.remove_queue, seq![*id], 0) == before.remove_queue);
                    assert(queue_all(before.remove_queue, seq![*id], 1) == queue_one(
                        before.remove_queue,
                        *id,
                    ));
                    state.queue_remove(*id);
                },
                EntityMatch::ByType(EntType::Wall) => {
                    queue_walls(state);
                },
                EntityMatch::ByType(EntType::Paddle) => {
                    queue_paddles(state);
                },
                EntityMatch::ByType(EntType::Ball) => {
                    queue_balls(state);
                },
                EntityMatch::ByType(EntType::Score) => {
                    queue_scores(state);
                },
                EntityMatch::All => {
                    let ghost walls = wall_ents(state.walls@);
                    let ghost paddles = paddle_ents(state.paddles@);
                    let ghost balls = ball_ents(state.balls@);
                    let ghost scores = score_ents(state.scores@);
                    queue_walls(state);
                    queue_paddles(state);
                    queue_balls(state);
                    queue_scores(state);
                    proof {
                        lemma_queue_all_append(
                            before.remove_queue,
                            walls,
                            paddles,
                            paddles.len() as int,
                        );
                        lemma_queue_all_append(
                            before.remove_queue,
                            walls + paddles,
                            balls,
                            balls.len() as int,
                        );
                        lemma_queue_all_append(
                            before.remove_queue,
                            walls + paddles + balls,
                            scores,
                            scores.len() as int,
                        );
                    }
                },
            }
        },
        EngineAction::RemoveEntity(None) => {},
        EngineAction::AddEntity(ent) => {
            state.queue_add(ent.copy());
        },
    }
    assert(game_view(*state, *logics) =~= before.performed(action@));
}

/// `first_action` gives a position at or behind `from`, or the length.
pub proof fn lemma_first_action_range<KeyCode: Copy>(
    actions: Seq<Action<ActionID, KeyCode>>,
    id: ActionID,
    from: int,
)
    requires
        0 <= from <= actions.len(),
    ensures
        from <= first_action(actions, id, from) <= actions.len(),
    decreases actions.len() - from,
{
    if from < actions.len() && actions[from].id != id {
        lemma_first_action_range(actions, id, from + 1);
    }
}

/// Making an action valid or invalid leaves every set as long as it was and
/// every action as digital as it was.
pub proof fn lemma_validity_keeps_shape<KeyCode: Copy>(
    key_map: Seq<Seq<Action<ActionID, KeyCode>>>,
    set: usize,
    id: ActionID,
    valid: bool,
)
    requires
        set < key_map.len(),
    ensures
        with_validity(key_map, set, id, valid).len() == key_map.len(),
        forall|s: int|
            0 <= s < key_map.len() ==> (#[trigger] with_validity(key_map, set, id, valid)[s]).len()
                == key_map[s].len(),
        all_digital(key_map) ==> all_digital(with_validity(key_map, set, id, valid)),
{
    let after = with_validity(key_map, set, id, valid);
    lemma_first_action_range(key_map[set as int], id, 0);
    if all_digital(key_map) {
        assert forall|s: int, a: int| 0 <= s < after.len() && 0 <= a < after[s].len() implies (
        #[trigger] after[s][a]).input_type == InputType::Digital by {
            assert(key_map[s][a].input_type == InputType::Digital);
        }
    }
}

impl<Wrapper: InputWrapper> Game<Wrapper> {
    /// A game without entities that watches for nothing.
    pub fn new() -> (game: Self)
        ensures
            game@.wf(),
            game@.count() == 0,
            game@.scores.len() == 0,
            game@.remove_queue.len() == 0,
            game@.add_queue.len() == 0,
            game@.key_map.len() == 0,
            game@.pools.len() == 0,
            game@.transactions.len() == 0,
            game.events.control@.len() == 0,
            game.events.collision@.len() == 0,
            game.events.resources@.len() == 0,
    {
        Self {
            state: State::new(),
            logics: Logics {
                collision: AabbCollision::new(),
                physics: PointPhysics::new(),
                resources: QueuedResources::new(),
                control: KeyboardControl::new(),
            },
            events: Events::new(),
        }
    }

    /// Adds a wall: a fixed body behind those of the other walls. Returns the
    /// name of the wall.
    pub fn add_wall(&mut self, wall: Wall) -> (id: WallID)
        requires
            old(self)@.wf(),
            old(self)@.count() < usize::MAX,
            old(self)@.wall_id_max < usize::MAX,
        ensures
            final(self)@ == old(self)@.with_wall(wall),
            final(self)@.wf(),
            final(self).events == old(self).events,
            id == WallID(old(self)@.wall_id_max),
    {
        let id = WallID::new(self.state.wall_id_max);
        self.state.wall_id_max += 1;
        let col_idx: usize = self.state.walls.len() + self.state.paddles.len();
        let half = half_extent(wall.size);
        let center = wall.pos.moved(half.x, half.y);
        self.logics.collision.insert_collision_entity(
            col_idx,
            center,
            half,
            Vec2::zero(),
            true,
            true,
            CollisionEnt::Wall,
        );
        self.state.walls.push(id);
        assert(self@ =~= old(self)@.with_wall(wall));
        id
    }

    /// Adds a ball: a body behind all others, and a point behind the other
    /// points. Returns the name of the ball.
    pub fn add_ball(&mut self, ball: Ball) -> (id: BallID)
        requires
            old(self)@.wf(),
            old(self)@.count() < usize::MAX,
            old(self)@.ball_id_max < usize::MAX,
        ensures
            final(self)@ == old(self)@.with_ball(ball),
            final(self)@.wf(),
            final(self).events == old(self).events,
            id == BallID(old(self)@.ball_id_max),
    {
        let id = BallID::new(self.state.ball_id_max);
        self.state.ball_id_max += 1;
        let col_idx: usize = self.state.balls.len() + self.state.paddles.len()
            + self.state.walls.len();
        let half = half_extent(ball.size);
        let center = ball.pos.moved(half.x, half.y);
        self.logics.collision.insert_collision_entity(
            col_idx,
            center,
            half,
            Vec2::zero(),
            true,
            false,
            CollisionEnt::Ball,
        );
        self.logics.physics.add_physics_entity(ball.pos, ball.vel, Vec2::zero());
        self.state.balls.push(id);
        assert(self@ =~= old(self)@.with_ball(ball));
        id
    }

    /// Adds a score: a pool that holds the score's value, between nothing and
    /// the most that a score can count. Returns the name of the score.
    pub fn add_score(&mut self, score: Score) -> (id: ScoreID)
        requires
            old(self)@.wf(),
            old(self)@.score_id_max < usize::MAX,
        ensures
            final(self)@ == old(self)@.with_score(score),
            final(self)@.wf(),
            final(self).events == old(self).events,
            id == ScoreID(old(self)@.score_id_max),
    {
        let id = ScoreID::new(self.state.score_id_max);
        self.state.score_id_max += 1;
        proof {
            lemma_names_tell_apart();
        }
        let values = PoolValues { val: score.value as i64, min: SCORE_MIN, max: SCORE_MAX };
        insert_pool(&mut self.logics.resources.items, RsrcPool::Score(id), values);
        self.state.scores.push(id);
        assert(self@ =~= old(self)@.with_score(score));
        id
    }

    /// Adds a paddle: a fixed body behind those of the other paddles, and its
    /// controls as the set of bindings that has the number of its name.
    /// Returns the name of the paddle.
    pub fn add_paddle(&mut self, paddle: Paddle<Wrapper::KeyCode>) -> (id: PaddleID)
        requires
            old(self)@.wf(),
            old(self)@.count() < usize::MAX,
            old(self)@.paddle_id_max < usize::MAX,
        ensures
            final(self)@ == old(self)@.with_paddle(paddle.pos, paddle.size, paddle.controls@),
            final(self)@.wf(),
            final(self).events == old(self).events,
            id == PaddleID(old(self)@.paddle_id_max),
    {
        let id = PaddleID::new(self.state.paddle_id_max);
        self.state.paddle_id_max += 1;
        let col_idx: usize = self.state.paddles.len();
        let half = half_extent(paddle.size);
        let center = paddle.pos.moved(half.x, half.y);
        self.logics.collision.insert_collision_entity(
            col_idx,
            center,
            half,
            Vec2::zero(),
            true,
            true,
            CollisionEnt::Paddle,
        );
        self.state.paddles.push(id);
        let ghost mid = self@;
        let ghost set = id.0 as int;
        let n: usize = paddle.controls.len();
        let mut k: usize = 0;
        while k < n
            invariant
                k <= n,
                n == paddle.controls@.len(),
                set == id.0,
                id.0 < usize::MAX,
                self.events == old(self).events,
                self.logics.control.wf(),
                all_digital(self@.key_map),
                self@ == (GameView {
                    key_map: bound_keys(mid.key_map, set, paddle.controls@, k as int),
                    key_values: bound_values(mid.key_values, set, k as int),
                    ..mid
                }),
            decreases n - k,
        {
            let (act_id, keycode, valid) = paddle.controls[k];
            let ghost keys = self@.key_map;
            let ghost values = self@.key_values;
            self.logics.control.add_key_map(id.idx(), keycode, act_id, valid);
            k += 1;
            assert(self@.key_map =~= with_binding(keys, set, binding(paddle.controls@[k - 1])));
            assert(self@.key_values =~= with_binding(values, set, Values::spec_new()));
            assert(self@ =~= (GameView {
                key_map: bound_keys(mid.key_map, set, paddle.controls@, k as int),
                key_values: bound_values(mid.key_values, set, k as int),
                ..mid
            }));
        }
        assert(self@ =~= old(self)@.with_paddle(paddle.pos, paddle.size, paddle.controls@));
        id
    }

    /// Removes a wall and its body. A wall that is not there leaves nothing.
    pub fn remove_wall(&mut self, wall: WallID)
        requires
            old(self)@.wf(),
        ensures
            final(self)@ == old(self)@.without_wall(wall),
            final(self)@.wf(),
            final(self).events == old(self).events,
    {
        if let Some(at) = place_of_wall(&self.state.walls, wall) {
            let col_idx: usize = self.state.paddles.len() + at;
            self.logics.collision.handle_predicate(&CollisionReaction::RemoveBody(col_idx));
            self.state.walls.remove(at);
            assert(self@ =~= old(self)@.without_wall(wall));
        }
    }

    /// Removes a ball, its body and its point. A ball that is not there leaves
    /// nothing.
    pub fn remove_ball(&mut self, ball: BallID)
        requires
            old(self)@.wf(),
        ensures
            final(self)@ == old(self)@.without_ball(ball),
            final(self)@.wf(),
            final(self).events == old(self).events,
    {
        if let Some(at) = place_of_ball(&self.state.balls, ball) {
            let col_idx: usize = self.state.paddles.len() + self.state.walls.len() + at;
            self.logics.physics.positions.remove(at);
            self.logics.physics.velocities.remove(at);
            self.logics.physics.accelerations.remove(at);
            self.logics.collision.handle_predicate(&CollisionReaction::RemoveBody(col_idx));
            self.state.balls.remove(at);
            assert(self@ =~= old(self)@.without_ball(ball));
        }
    }

    /// Removes a paddle and its body, and the set of bindings at the paddle's
    /// place among the paddles. A paddle that is not there leaves nothing.
    pub fn remove_paddle(&mut self, paddle: PaddleID)
        requires
            old(self)@.wf(),
        ensures
            final(self)@ == old(self)@.without_paddle(paddle),
            final(self)@.wf(),
            final(self).events == old(self).events,
    {
        if let Some(at) = place_of_paddle(&self.state.paddles, paddle) {
            if at < self.logics.control.set_count() {
                self.logics.control.remove_set(at);
            }
            self.logics.collision.handle_predicate(&CollisionReaction::RemoveBody(at));
            self.state.paddles.remove(at);
            assert(self@ =~= old(self)@.without_paddle(paddle));
        }
    }

    /// Removes a score and its pool. A score that is not there leaves nothing.
    pub fn remove_score(&mut self, score: ScoreID)
        requires
            old(self)@.wf(),
        ensures
            final(self)@ == old(self)@.without_score(score),
            final(self)@.wf(),
            final(self).events == old(self).events,
    {
        if let Some(at) = place_of_score(&self.state.scores, score) {
            proof {
                lemma_names_tell_apart();
            }
            remove_pool(&mut self.logics.resources.items, &RsrcPool::Score(score));
            self.state.scores.remove(at);
            assert(self@ =~= old(self)@.without_score(score));
        }
    }
}

/// Whether the control logic reported the key event that is watched for.
pub fn key_reported(keys: &[ControlEvent<ActionID>], event: &EngineCtrlEvent) -> (b: bool)
    ensures
        b == key_happened(keys@, *event),
{
    let n: usize = keys.len();
    let mut k: usize = 0;
    while k < n
        invariant
            k <= n,
            n == keys@.len(),
            forall|m: int| 0 <= m < k ==> !key_matches(#[trigger] keys@[m], *event),
        decreases n - k,
    {
        let key = &keys[k];
        let hit = match event {
            EngineCtrlEvent::MovePaddle(paddle, id) => key.action_id.0 == id.0 && key.set
                == paddle.0 && match key.event_type {
                ControlEventType::KeyHeld => true,
                _ => false,
            },
            EngineCtrlEvent::ServePressed(paddle, id) => key.action_id.0 == id.0 && key.set
                == paddle.0 && match key.event_type {
                ControlEventType::KeyPressed => true,
                _ => false,
            },
        };
        if hit {
            return true;
        }
        k += 1;
    }
    false
}

/// Whether the resource logic reported the change of a score that is watched
/// for.
pub fn score_reported(
    pools: &Vec<(RsrcPool, PoolValues<i64>)>,
    completed: &[ResourceEvent<RsrcPool, i64>],
    event: &EngineRsrcEvent,
) -> (b: bool)
    ensures
        b == score_happened(pools@, completed@, *event),
{
    proof {
        lemma_names_tell_apart();
    }
    if let EngineRsrcEvent::ScoreEquals(score, value) = event {
        match find_pool(pools, &RsrcPool::Score(*score)) {
            Some(at) => {
                let wanted: i64 = *value as i64;
                if pools[at].1.val != wanted {
                    return false;
                }
            },
            None => {
                return false;
            },
        }
    }
    let n: usize = completed.len();
    let mut k: usize = 0;
    while k < n
        invariant
            k <= n,
            n == completed@.len(),
            forall|m: int| 0 <= m < k ==> !score_matches(#[trigger] completed@[m], *event),
            match *event {
                EngineRsrcEvent::ScoreEquals(score, value) => has_pool(
                    pools@,
                    RsrcPool::Score(score),
                ) && pool_of(pools@, RsrcPool::Score(score)).val == value,
                _ => true,
            },
        decreases n - k,
    {
        let done = &completed[k];
        let updated = match done.event_type {
            ResourceEventType::PoolUpdated => true,
            _ => false,
        };
        let hit = match event {
            EngineRsrcEvent::ScoreIncreased(score) => {
                let RsrcPool::Score(pool) = done.pool;
                pool.0 == score.0 && updated && match done.transaction {
                    Transaction::Change(by) => by == 1,
                    _ => false,
                }
            },
            EngineRsrcEvent::ScoreReset(score) => {
                let RsrcPool::Score(pool) = done.pool;
                pool.0 == score.0 && updated && match done.transaction {
                    Transaction::SetValue(to) => to == 0,
                    _ => false,
                }
            },
            EngineRsrcEvent::ScoreEquals(score, _) => {
                let RsrcPool::Score(pool) = done.pool;
                pool.0 == score.0 && updated
            },
        };
        if hit {
            assert(score_matches(completed@[k as int], *event));
            return true;
        }
        k += 1;
    }
    false
}

/// Whether a pattern names the entity of body `idx`.
pub fn pattern_fits<Wrapper: InputWrapper>(
    state: &State<Wrapper::KeyCode>,
    logics: &Logics<Wrapper>,
    pattern: &EntityMatch,
    idx: usize,
) -> (b: bool)
    requires
        game_view(*state, *logics).wf(),
        idx < game_view(*state, *logics).count(),
    ensures
        b == game_view(*state, *logics).fits(*pattern, idx as int),
{
    match pattern {
        EntityMatch::ByID(id) => {
            let collides = match id {
                EntID::Score(_) => false,
                _ => true,
            };
            if collides && holds(state, *id) {
                state.get_col_idx(*id) == idx
            } else {
                false
            }
        },
        EntityMatch::ByType(kind) => {
            let found = state.get_id(idx).get_type();
            match (found, kind) {
                (EntType::Wall, EntType::Wall) => true,
                (EntType::Paddle, EntType::Paddle) => true,
                (EntType::Ball, EntType::Ball) => true,
                (EntType::Score, EntType::Score) => true,
                _ => false,
            }
        },
        EntityMatch::All => true,
    }
}

impl<Wrapper: InputWrapper + 'static> Game<Wrapper> {
    /// The control stage of a frame: the control logic takes a step on what
    /// the keys did, and the game reacts to the key events that it watches
    /// for.
    pub fn control(&mut self, input: &Wrapper::InputHelper)
        requires
            old(self)@.wf(),
        ensures
            final(self)@.wf(),
            final(self).events == old(self).events,
            exists|observed: Seq<Seq<KeyState>>, values: Seq<Seq<Values>>|
                #[trigger] follows(old(self)@.key_map, old(self)@.key_values, observed, values)
                    && final(self)@ == old(self)@.with_keys(values).control_reacted(
                    watched(old(self).events.control@),
                    old(self).events.control@.len() as int,
                ),
    {
        self.logics.control.update(input);
        let ghost values = self@.key_values;
        let ghost observed = choose|observed: Seq<Seq<KeyState>>|
            follows(old(self)@.key_map, old(self)@.key_values, observed, values);
        let ghost start = self@;
        let ghost list = watched(self.events.control@);
        assert(start =~= old(self)@.with_keys(values));
        let n: usize = self.events.control.len();
        let mut i: usize = 0;
        while i < n
            invariant
                i <= n,
                n == self.events.control@.len(),
                self.events == old(self).events,
                list == watched(self.events.control@),
                self@.wf(),
                self@ == start.control_reacted(list, i as int),
            decreases n - i,
        {
            if key_reported(self.logics.control.events(), &self.events.control[i].0) {
                let ghost entry = self@;
                let m: usize = self.events.control[i].1.len();
                let mut j: usize = 0;
                while j < m
                    invariant
                        j <= m,
                        i < n,
                        n == self.events.control@.len(),
                        m == self.events.control@[i as int].1@.len(),
                        self.events == old(self).events,
                        list == watched(self.events.control@),
                        self@.wf(),
                        self@ == entry.all_performed(list[i as int].1, j as int),
                    decreases m - j,
                {
                    perform_action::<Wrapper>(
                        &self.events.control[i].1[j],
                        &mut self.state,
                        &mut self.logics,
                    );
                    j += 1;
                }
            }
            i += 1;
        }
        assert(follows(old(self)@.key_map, old(self)@.key_values, observed, values));
    }

    /// The physics stage of a frame: the physics logic takes a step, and the
    /// body of each ball is put where its point now is.
    pub fn physics(&mut self)
        requires
            old(self)@.wf(),
        ensures
            final(self)@.wf(),
            final(self).events == old(self).events,
            final(self)@ == old(self)@.physics_stepped(),
    {
        self.logics.physics.update();
        let first: usize = self.state.paddles.len() + self.state.walls.len();
        let n: usize = self.logics.physics.positions.len();
        let ghost start = self.logics.collision.bodies();
        let ghost moved = self@;
        let mut k: usize = 0;
        while k < n
            invariant
                k <= n,
                first == moved.paddles.len() + moved.walls.len(),
                n == moved.positions.len(),
                n == moved.velocities.len(),
                first + n == start.len(),
                start == moved.bodies,
                start.wf(),
                self.events == old(self).events,
                self.logics.collision.wf(),
                self@ == (GameView { bodies: self@.bodies, ..moved }),
                self@.bodies.half_sizes == start.half_sizes,
                self@.bodies.metadata == start.metadata,
                self@.bodies.centers.len() == start.len(),
                self@.bodies.velocities.len() == start.len(),
                forall|b: int|
                    0 <= b < start.len() ==> #[trigger] self@.bodies.centers[b] == if first <= b
                        < first + k {
                        moved.positions[b - first].spec_moved(
                            start.half_sizes[b].x as int,
                            start.half_sizes[b].y as int,
                        )
                    } else {
                        start.centers[b]
                    },
                forall|b: int|
                    0 <= b < start.len() ==> #[trigger] self@.bodies.velocities[b] == if first <= b
                        < first + k {
                        moved.velocities[b - first]
                    } else {
                        start.velocities[b]
                    },
            decreases n - k,
        {
            let idx: usize = first + k;
            let pos = self.logics.physics.positions[k];
            let vel = self.logics.physics.velocities[k];
            let half = *self.logics.collision.body(idx).half_size;
            let center = pos.moved(half.x, half.y);
            self.logics.collision.handle_predicate(&CollisionReaction::SetCenter(idx, center));
            self.logics.collision.handle_predicate(&CollisionReaction::SetVel(idx, vel));
            k += 1;
        }
        proof {
            let wanted = old(self)@.physics_stepped();
            assert(self@.positions =~= wanted.positions);
            assert(self@.velocities =~= wanted.velocities);
            assert(self@.bodies.centers =~= wanted.bodies.centers);
            assert(self@.bodies.velocities =~= wanted.bodies.velocities);
            assert(self@.bodies == wanted.bodies);
            assert(self@ == wanted);
        }
    }

    /// The collision stage of a frame: the collision logic takes a step, the
    /// point of each ball is put at the corner of its body, and the game reacts
    /// to the contacts that it watches for.
    pub fn collision(&mut self)
        requires
            old(self)@.wf(),
        ensures
            final(self)@.wf(),
            final(self).events == old(self).events,
            final(self)@ == old(self)@.collision_stepped().collision_reacted(
                watched(old(self).events.collision@),
                old(self).events.collision@.len() as int,
            ),
    {
        self.logics.collision.update();
        let first: usize = self.state.paddles.len() + self.state.walls.len();
        let n: usize = self.logics.physics.positions.len();
        let ghost pushed = self@;
        let mut k: usize = 0;
        while k < n
            invariant
                k <= n,
                first == pushed.paddles.len() + pushed.walls.len(),
                n == pushed.positions.len(),
                first + n == pushed.bodies.len(),
                pushed.bodies.wf(),
                self.events == old(self).events,
                self.logics.collision.wf(),
                self@ == (GameView { positions: self@.positions, ..pushed }),
                self@.positions.len() == n,
                forall|b: int|
                    0 <= b < k ==> #[trigger] self@.positions[b] == (Vec2 {
                        x: (pushed.bodies.centers[first + b].x - pushed.bodies.half_sizes[first
                            + b].x) as i64,
                        y: (pushed.bodies.centers[first + b].y - pushed.bodies.half_sizes[first
                            + b].y) as i64,
                    }),
            decreases n - k,
        {
            let body = self.logics.collision.body(first + k);
            let corner = Vec2 {
                x: body.center.x - body.half_size.x,
                y: body.center.y - body.half_size.y,
            };
            self.logics.physics.positions.set(k, corner);
            k += 1;
        }
        let ghost stepped = self@;
        proof {
            let wanted = old(self)@.collision_stepped();
            assert(stepped.positions =~= wanted.positions);
            assert(stepped == wanted);
        }
        let ghost list = watched(self.events.collision@);
        let count: usize = self.events.collision.len();
        let contacts: usize = self.logics.collision.events().len();
        assert(stepped.contacts_fit()) by {
            assert forall|c: int| 0 <= c < stepped.contacts.len() implies (
            #[trigger] stepped.contacts[c]).i < stepped.count() && stepped.contacts[c].j
                < stepped.count() by {
                assert(stepped.bodies.is_contact(stepped.contacts[c]));
            }
        }
        let mut i: usize = 0;
        while i < count
            invariant
                i <= count,
                count == self.events.collision@.len(),
                self.events == old(self).events,
                list == watched(self.events.collision@),
                self@.wf(),
                self@.same_frame(stepped),
                stepped.contacts_fit(),
                contacts == stepped.contacts.len(),
                self@ == stepped.collision_reacted(list, i as int),
            decreases count - i,
        {
            let ghost entry = self@;
            let mut c: usize = 0;
            while c < contacts
                invariant
                    c <= contacts,
                    i < count,
                    count == self.events.collision@.len(),
                    self.events == old(self).events,
                    list == watched(self.events.collision@),
                    self@.wf(),
                    self@.same_frame(stepped),
                    stepped.contacts_fit(),
                    contacts == stepped.contacts.len(),
                    entry.same_frame(stepped),
                    self@ == entry.contacts_reacted(list[i as int].0, list[i as int].1, c as int),
                decreases contacts - c,
            {
                let contact = self.logics.collision.events()[c];
                let happened = match &self.events.collision[i].0 {
                    EngineCollisionEvent::Match(fst, snd) => pattern_fits(
                        &self.state,
                        &self.logics,
                        fst,
                        contact.i,
                    ) && pattern_fits(&self.state, &self.logics, snd, contact.j),
                };
                if happened {
                    let ghost met = self@;
                    let m: usize = self.events.collision[i].1.len();
                    let mut j: usize = 0;
                    while j < m
                        invariant
                            j <= m,
                            i < count,
                            c < contacts,
                            count == self.events.collision@.len(),
                            m == self.events.collision@[i as int].1@.len(),
                            self.events == old(self).events,
                            list == watched(self.events.collision@),
                            self@.wf(),
                            self@.same_frame(stepped),
                            stepped.contacts_fit(),
                            contacts == stepped.contacts.len(),
                            contact == stepped.contacts[c as int],
                            self@ == met.contact_performed(list[i as int].1, contact, j as int),
                        decreases m - j,
                    {
                        match &self.events.collision[i].1[j] {
                            EngineAction::BounceBall(ball, None) => {
                                let other = self.state.get_id(contact.j);
                                let action = EngineAction::BounceBall(*ball, Some(other));
                                perform_action::<Wrapper>(
                                    &action,
                                    &mut self.state,
                                    &mut self.logics,
                                );
                            },
                            EngineAction::RemoveEntity(None) => {
                                let other = self.state.get_id(contact.j);
                                let action = EngineAction::RemoveEntity(
                                    Some(EntityMatch::ByID(other)),
                                );
                                perform_action::<Wrapper>(
                                    &action,
                                    &mut self.state,
                                    &mut self.logics,
                                );
                            },
                            action => {
                                perform_action::<Wrapper>(
                                    action,
                                    &mut self.state,
                                    &mut self.logics,
                                );
                            },
                        }
                        j += 1;
                    }
                }
                c += 1;
            }
            i += 1;
        }
    }

    /// The resource stage of a frame: the resource logic applies what is
    /// queued, and the game reacts to the changes of scores that it watches
    /// for.
    pub fn resources(&mut self)
        requires
            old(self)@.wf(),
        ensures
            final(self)@.wf(),
            final(self).events == old(self).events,
            final(self)@ == old(self)@.resources_stepped().resources_reacted(
                watched(old(self).events.resources@),
                old(self).events.resources@.len() as int,
            ),
    {
        proof {
            lemma_names_tell_apart();
        }
        self.logics.resources.update();
        let ghost start = self@;
        proof {
            let wanted = old(self)@.resources_stepped();
            assert(start.transactions =~= wanted.transactions);
            assert(start == wanted);
        }
        let ghost list = watched(self.events.resources@);
        let n: usize = self.events.resources.len();
        let mut i: usize = 0;
        while i < n
            invariant
                i <= n,
                n == self.events.resources@.len(),
                self.events == old(self).events,
                list == watched(self.events.resources@),
                self@.wf(),
                self@ == start.resources_reacted(list, i as int),
            decreases n - i,
        {
            if score_reported(
                &self.logics.resources.items,
                self.logics.resources.completed.as_slice(),
                &self.events.resources[i].0,
            ) {
                let ghost entry = self@;
                let m: usize = self.events.resources[i].1.len();
                let mut j: usize = 0;
                while j < m
                    invariant
                        j <= m,
                        i < n,
                        n == self.events.resources@.len(),
                        m == self.events.resources@[i as int].1@.len(),
                        self.events == old(self).events,
                        list == watched(self.events.resources@),
                        self@.wf(),
                        self@ == entry.all_performed(list[i as int].1, j as int),
                    decreases m - j,
                {
                    perform_action::<Wrapper>(
                        &self.events.resources[i].1[j],
                        &mut self.state,
                        &mut self.logics,
                    );
                    j += 1;
                }
            }
            i += 1;
        }
    }
}

} // verus!
