use asterism::collision::contact::Contact;
use asterism::control::{ControlEvent, ControlEventType, InputWrapper};
use asterism::geometry::Vec2;
use asterism::paddles::engine::{
    half_extent, holds, key_reported, pattern_fits, perform_action, place_of_ball, place_of_wall,
    score_reported, Game,
};
use asterism::paddles::events::{
    EngineAction, EngineCollisionEvent, EngineCtrlEvent, EngineRsrcEvent, EntityMatch, Events,
};
use asterism::paddles::frame::sort_queue;
use asterism::paddles::ids::{
    bounce, find_ball, find_paddle, find_wall, ActionID, BallID, CollisionEnt, EntID, EntType,
    PaddleID, RsrcPool, ScoreID, WallID,
};
use asterism::paddles::state::State;
use asterism::paddles::types::{add_blocks, Ball, Ent, Paddle, Score, Wall};
use asterism::resources::{PoolValues, ResourceEvent, ResourceEventType, Transaction};
use asterism::Logic;

/// Keys as a test sees them: which are down now, and which were down before.
struct Keys {}

struct Frame {
    down: Vec<char>,
    was_down: Vec<char>,
}

impl InputWrapper for Keys {
    type KeyCode = char;
    type InputHelper = Frame;

    fn new() -> Self {
        Keys {}
    }

    fn clear(&mut self) {}

    fn update_held(&mut self, key: &char, events: &Frame) -> bool {
        events.down.contains(key)
    }

    fn is_pressed(&self, key: &char, events: &Frame) -> bool {
        events.down.contains(key) && !events.was_down.contains(key)
    }

    fn is_released(&self, key: &char, events: &Frame) -> bool {
        !events.down.contains(key) && events.was_down.contains(key)
    }
}

fn frame(down: &[char], was_down: &[char]) -> Frame {
    Frame { down: down.to_vec(), was_down: was_down.to_vec() }
}

fn table() -> State<char> {
    let mut state = State::new();
    state.paddles = vec![PaddleID::new(4), PaddleID::new(1)];
    state.walls = vec![WallID::new(0), WallID::new(1), WallID::new(2)];
    state.balls = vec![BallID::new(7)];
    state.scores = vec![ScoreID::new(0), ScoreID::new(1)];
    state
}

/// A game with one paddle, a wall to the left and one to the right, a ball
/// and a score. The bodies are, in order: paddle, left wall, right wall, ball.
fn court() -> Game<Keys> {
    let mut game: Game<Keys> = Game::new();
    game.add_ball(Ball::new(Vec2::new(50, 50), Vec2::new(4, 4)));
    game.add_wall(Wall::new(Vec2::new(-10, 0), Vec2::new(10, 100)));
    let mut paddle = Paddle::new(Vec2::new(0, 40), Vec2::new(10, 20));
    paddle.add_control_map('q', true);
    paddle.add_control_map('w', true);
    game.add_paddle(paddle);
    game.add_wall(Wall::new(Vec2::new(100, 0), Vec2::new(10, 100)));
    game.add_score(Score::new(0, Vec2::new(0, 0)));
    game
}

fn act(game: &mut Game<Keys>, action: EngineAction<char>) {
    perform_action::<Keys>(&action, &mut game.state, &mut game.logics);
}

const BALL: BallID = BallID(0);
const PADDLE: PaddleID = PaddleID(0);
const LEFT: WallID = WallID(0);
const RIGHT: WallID = WallID(1);
const SCORE: ScoreID = ScoreID(0);

#[test]
fn names_hand_out_their_numbers() {
    assert_eq!(PaddleID::new(3).idx(), 3);
    assert_eq!(WallID::new(4).idx(), 4);
    assert_eq!(BallID::new(5).idx(), 5);
    assert_eq!(ScoreID::new(6).idx(), 6);
    assert_eq!(ActionID::new(7).idx(), 7);
    assert_eq!(EntID::Wall(WallID(9)).get_idx(), 9);
    assert_eq!(EntID::Score(ScoreID(2)).get_idx(), 2);
    assert_eq!(EntID::Ball(BallID(1)).get_ball(), Some(BallID(1)));
    assert_eq!(EntID::Ball(BallID(1)).get_wall(), None);
    assert_eq!(EntID::Wall(WallID(1)).get_wall(), Some(WallID(1)));
    assert_eq!(EntID::Paddle(PaddleID(1)).get_paddle(), Some(PaddleID(1)));
    assert_eq!(EntID::Score(ScoreID(1)).get_paddle(), None);
    assert_eq!(EntID::Paddle(PaddleID(1)).get_col_type(), CollisionEnt::Paddle);
    assert_eq!(EntID::Wall(WallID(1)).get_col_type(), CollisionEnt::Wall);
    assert_eq!(EntID::Ball(BallID(1)).get_col_type(), CollisionEnt::Ball);
    assert_eq!(EntID::Score(ScoreID(1)).get_type(), EntType::Score);
    assert_eq!(EntID::Ball(BallID(1)).get_type(), EntType::Ball);
    assert_eq!(EntType::from_col_type(CollisionEnt::Wall), EntType::Wall);
    assert_eq!(EntType::from_col_type(CollisionEnt::Paddle), EntType::Paddle);
}

#[test]
fn bodies_stand_in_the_order_paddles_walls_balls() {
    let state = table();
    assert!(state.is_wf());
    assert_eq!(state.get_col_idx(EntID::Paddle(PaddleID(4))), 0);
    assert_eq!(state.get_col_idx(EntID::Paddle(PaddleID(1))), 1);
    assert_eq!(state.get_col_idx(EntID::Wall(WallID(0))), 2);
    assert_eq!(state.get_col_idx(EntID::Wall(WallID(2))), 4);
    assert_eq!(state.get_col_idx(EntID::Ball(BallID(7))), 5);
    assert_eq!(state.get_id(0), EntID::Paddle(PaddleID(4)));
    assert_eq!(state.get_id(3), EntID::Wall(WallID(1)));
    assert_eq!(state.get_id(5), EntID::Ball(BallID(7)));
    assert_eq!(state.get_id(6), EntID::Score(ScoreID(0)));
    assert_eq!(state.get_id(7), EntID::Score(ScoreID(1)));
    for idx in 0..6 {
        assert_eq!(state.get_col_idx(state.get_id(idx)), idx);
    }
}

#[test]
fn name_is_found_at_its_first_place() {
    assert_eq!(find_paddle(&vec![PaddleID(2), PaddleID(3), PaddleID(2)], PaddleID(2)), 0);
    assert_eq!(find_wall(&vec![WallID(2), WallID(3), WallID(3)], WallID(3)), 1);
    assert_eq!(find_ball(&vec![BallID(5)], BallID(5)), 0);
}

#[test]
fn removal_is_noted_once() {
    let mut state = table();
    state.queue_remove(EntID::Ball(BallID(7)));
    state.queue_remove(EntID::Wall(WallID(1)));
    state.queue_remove(EntID::Ball(BallID(7)));
    assert_eq!(state.remove_queue, vec![EntID::Ball(BallID(7)), EntID::Wall(WallID(1))]);
    assert_eq!(state.balls, vec![BallID(7)]);
}

#[test]
fn ball_turns_around_along_the_axis_it_touched() {
    let vel = Vec2::new(3, -4);
    assert_eq!(bounce(vel, Vec2::new(1, 0)), Vec2::new(-3, -4));
    assert_eq!(bounce(vel, Vec2::new(0, 1)), Vec2::new(3, 4));
    assert_eq!(bounce(vel, Vec2::new(0, 0)), vel);
    assert_eq!(bounce(vel, Vec2::new(1, 1)), Vec2::new(-3, 4));
    assert_eq!(bounce(Vec2::new(i64::MIN, 0), Vec2::new(1, 1)), Vec2::new(i64::MAX, 0));
}

#[test]
fn entities_get_bodies_in_the_order_paddles_walls_balls() {
    let game = court();
    assert_eq!(game.state.paddles, vec![PADDLE]);
    assert_eq!(game.state.walls, vec![LEFT, RIGHT]);
    assert_eq!(game.state.balls, vec![BALL]);
    assert_eq!(game.state.scores, vec![SCORE]);
    assert_eq!(game.state.paddle_id_max, 1);
    assert_eq!(game.state.wall_id_max, 2);
    let collision = &game.logics.collision;
    assert_eq!(
        collision.centers,
        vec![Vec2::new(5, 50), Vec2::new(-5, 50), Vec2::new(105, 50), Vec2::new(52, 52)]
    );
    assert_eq!(
        collision.half_sizes,
        vec![Vec2::new(5, 10), Vec2::new(5, 50), Vec2::new(5, 50), Vec2::new(2, 2)]
    );
    let kinds: Vec<CollisionEnt> = collision.metadata.iter().map(|data| data.id).collect();
    assert_eq!(
        kinds,
        vec![CollisionEnt::Paddle, CollisionEnt::Wall, CollisionEnt::Wall, CollisionEnt::Ball]
    );
    assert!(collision.metadata[0].fixed && collision.metadata[1].fixed);
    assert!(!collision.metadata[3].fixed);
    assert!(collision.metadata.iter().all(|data| data.solid));
    assert_eq!(game.logics.physics.positions, vec![Vec2::new(50, 50)]);
    assert_eq!(game.logics.physics.velocities, vec![Vec2::new(0, 0)]);
    assert_eq!(
        game.logics.resources.items,
        vec![(RsrcPool::Score(SCORE), PoolValues { val: 0, min: 0, max: 65535 })]
    );
    assert_eq!(game.logics.control.mapping.len(), 1);
    assert_eq!(game.logics.control.mapping[0].len(), 2);
    assert_eq!(game.logics.control.mapping[0][1].id, ActionID(1));
    assert_eq!(game.logics.control.mapping[0][1].key_input.keycode, 'w');
    assert_eq!(game.logics.control.values[0].len(), 2);
    assert_eq!(game.state.get_col_idx(EntID::Ball(BALL)), 3);
    assert_eq!(game.state.get_id(2), EntID::Wall(RIGHT));
}

#[test]
fn half_extent_is_half_the_size_and_never_negative() {
    assert_eq!(half_extent(Vec2::new(10, 21)), Vec2::new(5, 10));
    assert_eq!(half_extent(Vec2::new(-4, 9)), Vec2::new(0, 4));
    assert_eq!(half_extent(Vec2::new(i64::MAX, 0)), Vec2::new(1 << 60, 0));
}

#[test]
fn removed_entities_take_their_parts_along() {
    let mut game = court();
    game.remove_wall(LEFT);
    assert_eq!(game.state.walls, vec![RIGHT]);
    assert_eq!(
        game.logics.collision.centers,
        vec![Vec2::new(5, 50), Vec2::new(105, 50), Vec2::new(52, 52)]
    );
    game.remove_wall(LEFT);
    assert_eq!(game.logics.collision.centers.len(), 3);
    game.remove_ball(BALL);
    assert!(game.state.balls.is_empty());
    assert!(game.logics.physics.positions.is_empty());
    assert!(game.logics.physics.velocities.is_empty());
    assert!(game.logics.physics.accelerations.is_empty());
    assert_eq!(game.logics.collision.centers, vec![Vec2::new(5, 50), Vec2::new(105, 50)]);
    game.remove_paddle(PADDLE);
    assert!(game.state.paddles.is_empty());
    assert!(game.logics.control.mapping.is_empty());
    assert!(game.logics.control.values.is_empty());
    assert_eq!(game.logics.collision.centers, vec![Vec2::new(105, 50)]);
    game.remove_score(ScoreID(3));
    assert_eq!(game.logics.resources.items.len(), 1);
    game.remove_score(SCORE);
    assert!(game.state.scores.is_empty());
    assert!(game.logics.resources.items.is_empty());
}

#[test]
fn names_are_not_given_twice() {
    let mut game = court();
    game.remove_wall(RIGHT);
    let wall = game.add_wall(Wall::new(Vec2::new(0, 0), Vec2::new(2, 2)));
    assert_eq!(wall, WallID(2));
    assert_eq!(game.state.walls, vec![LEFT, WallID(2)]);
    assert_eq!(place_of_wall(&game.state.walls, WallID(2)), Some(1));
    assert_eq!(place_of_wall(&game.state.walls, RIGHT), None);
    assert_eq!(place_of_ball(&game.state.balls, BALL), Some(0));
    assert!(holds(&game.state, EntID::Wall(LEFT)));
    assert!(!holds(&game.state, EntID::Wall(RIGHT)));
    assert!(holds(&game.state, EntID::Score(SCORE)));
}

#[test]
fn actions_on_the_ball_reach_its_point_and_its_body() {
    let mut game = court();
    act(&mut game, EngineAction::SetBallVel(BALL, Vec2::new(3, 4)));
    assert_eq!(game.logics.physics.velocities, vec![Vec2::new(3, 4)]);
    act(&mut game, EngineAction::SetBallVel(BallID(7), Vec2::new(9, 9)));
    assert_eq!(game.logics.physics.velocities, vec![Vec2::new(3, 4)]);
    act(&mut game, EngineAction::SetBallPos(BALL, Vec2::new(10, 12)));
    assert_eq!(game.logics.physics.positions, vec![Vec2::new(10, 12)]);
    assert_eq!(game.logics.collision.centers[3], Vec2::new(10, 12));
    act(&mut game, EngineAction::SetBallPos(BALL, Vec2::new(i64::MAX, 0)));
    assert_eq!(game.logics.physics.positions, vec![Vec2::new(i64::MAX, 0)]);
    assert_eq!(game.logics.collision.centers[3], Vec2::new(1 << 60, 0));
}

#[test]
fn actions_on_a_paddle_move_its_body() {
    let mut game = court();
    act(&mut game, EngineAction::MovePaddleBy(PADDLE, Vec2::new(0, -3)));
    assert_eq!(game.logics.collision.centers[0], Vec2::new(5, 47));
    assert_eq!(game.logics.collision.velocities[0], Vec2::new(0, -3));
    act(&mut game, EngineAction::SetPaddlePos(PADDLE, Vec2::new(1, 2)));
    assert_eq!(game.logics.collision.centers[0], Vec2::new(1, 2));
    let before = game.logics.collision.centers.clone();
    act(&mut game, EngineAction::MovePaddleBy(PaddleID(5), Vec2::new(1, 1)));
    act(&mut game, EngineAction::SetPaddlePos(PaddleID(5), Vec2::new(1, 1)));
    assert_eq!(game.logics.collision.centers, before);
}

#[test]
fn actions_on_keys_and_scores_reach_their_logics() {
    let mut game = court();
    act(&mut game, EngineAction::SetKeyInvalid(PADDLE, ActionID(1)));
    assert!(game.logics.control.mapping[0][0].is_valid);
    assert!(!game.logics.control.mapping[0][1].is_valid);
    act(&mut game, EngineAction::SetKeyValid(PADDLE, ActionID(1)));
    assert!(game.logics.control.mapping[0][1].is_valid);
    act(&mut game, EngineAction::SetKeyInvalid(PaddleID(3), ActionID(0)));
    assert!(game.logics.control.mapping[0][0].is_valid);
    act(&mut game, EngineAction::ChangeScoreBy(SCORE, 2));
    act(&mut game, EngineAction::ChangeScore(SCORE, -7));
    assert_eq!(
        game.logics.resources.transactions,
        vec![
            (RsrcPool::Score(SCORE), Transaction::Change(2)),
            (RsrcPool::Score(SCORE), Transaction::SetValue(-7)),
        ]
    );
}

#[test]
fn removal_and_addition_are_only_noted() {
    let mut game = court();
    act(&mut game, EngineAction::RemoveEntity(None));
    assert!(game.state.remove_queue.is_empty());
    act(&mut game, EngineAction::RemoveEntity(Some(EntityMatch::ByID(EntID::Ball(BALL)))));
    act(&mut game, EngineAction::RemoveEntity(Some(EntityMatch::ByType(EntType::Wall))));
    assert_eq!(
        game.state.remove_queue,
        vec![EntID::Ball(BALL), EntID::Wall(LEFT), EntID::Wall(RIGHT)]
    );
    act(&mut game, EngineAction::RemoveEntity(Some(EntityMatch::All)));
    assert_eq!(
        game.state.remove_queue,
        vec![
            EntID::Ball(BALL),
            EntID::Wall(LEFT),
            EntID::Wall(RIGHT),
            EntID::Paddle(PADDLE),
            EntID::Score(SCORE),
        ]
    );
    act(&mut game, EngineAction::AddEntity(Ent::Wall(Wall::new(Vec2::new(1, 1), Vec2::new(2, 2)))));
    assert_eq!(game.state.add_queue.len(), 1);
    assert_eq!(game.state.walls, vec![LEFT, RIGHT]);
    assert_eq!(game.logics.collision.centers.len(), 4);
}

#[test]
fn ball_bounces_off_what_it_is_told_to() {
    let mut game = court();
    act(&mut game, EngineAction::SetBallPos(BALL, Vec2::new(99, 50)));
    act(&mut game, EngineAction::SetBallVel(BALL, Vec2::new(3, 4)));
    act(&mut game, EngineAction::BounceBall(BALL, None));
    assert_eq!(game.logics.physics.velocities, vec![Vec2::new(3, 4)]);
    act(&mut game, EngineAction::BounceBall(BALL, Some(EntID::Score(SCORE))));
    assert_eq!(game.logics.physics.velocities, vec![Vec2::new(3, 4)]);
    act(&mut game, EngineAction::BounceBall(BALL, Some(EntID::Wall(RIGHT))));
    assert_eq!(game.logics.physics.velocities, vec![Vec2::new(-3, 4)]);
}

#[test]
fn body_of_a_ball_follows_its_point() {
    let mut game = court();
    act(&mut game, EngineAction::SetBallVel(BALL, Vec2::new(3, 4)));
    game.physics();
    assert_eq!(game.logics.physics.positions, vec![Vec2::new(53, 54)]);
    assert_eq!(game.logics.collision.centers[3], Vec2::new(55, 56));
    assert_eq!(game.logics.collision.velocities[3], Vec2::new(3, 4));
    assert_eq!(game.logics.collision.centers[0], Vec2::new(5, 50));
    assert_eq!(game.logics.collision.velocities[0], Vec2::new(0, 0));
}

#[test]
fn ball_that_hits_a_wall_is_put_back_and_turned_around() {
    let mut game = court();
    game.events.add_col_events(
        EngineCollisionEvent::Match(
            EntityMatch::ByID(EntID::Ball(BALL)),
            EntityMatch::ByType(EntType::Wall),
        ),
        vec![EngineAction::BounceBall(BALL, None)],
    );
    game.events.add_col_events(
        EngineCollisionEvent::Match(EntityMatch::All, EntityMatch::ByID(EntID::Wall(RIGHT))),
        vec![EngineAction::ChangeScoreBy(SCORE, 1), EngineAction::RemoveEntity(None)],
    );
    game.events.add_col_events(
        EngineCollisionEvent::Match(
            EntityMatch::ByType(EntType::Paddle),
            EntityMatch::All,
        ),
        vec![EngineAction::ChangeScoreBy(SCORE, 5)],
    );
    act(&mut game, EngineAction::SetBallPos(BALL, Vec2::new(99, 50)));
    act(&mut game, EngineAction::SetBallVel(BALL, Vec2::new(3, 0)));
    game.collision();
    assert_eq!(
        game.logics.collision.events().to_vec(),
        vec![
            Contact { i: 3, j: 2, displacement: Vec2::new(-1, 52) },
            Contact { i: 0, j: 1, displacement: Vec2::new(0, 0) },
        ]
    );
    assert_eq!(game.logics.collision.centers[3], Vec2::new(98, 50));
    assert_eq!(game.logics.physics.positions, vec![Vec2::new(96, 48)]);
    assert_eq!(game.logics.physics.velocities, vec![Vec2::new(-3, 0)]);
    assert_eq!(
        game.logics.resources.transactions,
        vec![
            (RsrcPool::Score(SCORE), Transaction::Change(1)),
            (RsrcPool::Score(SCORE), Transaction::Change(5)),
        ]
    );
    assert_eq!(game.state.remove_queue, vec![EntID::Wall(RIGHT)]);
}

#[test]
fn patterns_name_bodies() {
    let game = court();
    let ball = EntityMatch::ByID(EntID::Ball(BALL));
    assert!(pattern_fits(&game.state, &game.logics, &ball, 3));
    assert!(!pattern_fits(&game.state, &game.logics, &ball, 2));
    let gone = EntityMatch::ByID(EntID::Ball(BallID(4)));
    assert!(!pattern_fits(&game.state, &game.logics, &gone, 3));
    let score = EntityMatch::ByID(EntID::Score(SCORE));
    assert!(!pattern_fits(&game.state, &game.logics, &score, 0));
    let walls = EntityMatch::ByType(EntType::Wall);
    assert!(pattern_fits(&game.state, &game.logics, &walls, 1));
    assert!(pattern_fits(&game.state, &game.logics, &walls, 2));
    assert!(!pattern_fits(&game.state, &game.logics, &walls, 0));
    assert!(pattern_fits(&game.state, &game.logics, &EntityMatch::All, 0));
}

#[test]
fn game_reacts_to_the_scores_that_changed() {
    let mut game = court();
    game.events.add_rsrc_event(
        EngineRsrcEvent::ScoreIncreased(SCORE),
        EngineAction::SetBallVel(BALL, Vec2::new(9, 9)),
    );
    game.events.add_rsrc_event(
        EngineRsrcEvent::ScoreReset(SCORE),
        EngineAction::SetBallPos(BALL, Vec2::new(0, 0)),
    );
    game.events.add_rsrc_event(
        EngineRsrcEvent::ScoreEquals(SCORE, 1),
        EngineAction::ChangeScore(SCORE, 0),
    );
    game.resources();
    assert_eq!(game.logics.physics.velocities, vec![Vec2::new(0, 0)]);
    assert!(game.logics.resources.transactions.is_empty());
    act(&mut game, EngineAction::ChangeScoreBy(SCORE, 1));
    game.resources();
    assert_eq!(game.logics.resources.items[0].1.val, 1);
    assert_eq!(game.logics.physics.velocities, vec![Vec2::new(9, 9)]);
    assert_eq!(game.logics.physics.positions, vec![Vec2::new(50, 50)]);
    assert_eq!(
        game.logics.resources.transactions,
        vec![(RsrcPool::Score(SCORE), Transaction::SetValue(0))]
    );
    game.resources();
    assert_eq!(game.logics.resources.items[0].1.val, 0);
    assert_eq!(game.logics.physics.positions, vec![Vec2::new(0, 0)]);
    assert!(game.logics.resources.transactions.is_empty());
}

#[test]
fn score_is_watched_for_a_number_only_where_it_holds_it() {
    let pools = vec![(RsrcPool::Score(SCORE), PoolValues { val: 3, min: 0, max: 65535 })];
    let done = vec![ResourceEvent {
        pool: RsrcPool::Score(SCORE),
        transaction: Transaction::Change(2),
        event_type: ResourceEventType::PoolUpdated,
    }];
    assert!(score_reported(&pools, &done, &EngineRsrcEvent::ScoreEquals(SCORE, 3)));
    assert!(!score_reported(&pools, &done, &EngineRsrcEvent::ScoreEquals(SCORE, 2)));
    assert!(!score_reported(&pools, &done, &EngineRsrcEvent::ScoreEquals(ScoreID(1), 3)));
    assert!(!score_reported(&pools, &[], &EngineRsrcEvent::ScoreEquals(SCORE, 3)));
    assert!(!score_reported(&pools, &done, &EngineRsrcEvent::ScoreIncreased(SCORE)));
    assert!(!score_reported(&pools, &done, &EngineRsrcEvent::ScoreReset(SCORE)));
}

#[test]
fn game_reacts_to_the_keys() {
    let mut game = court();
    game.events.add_ctrl_event(
        EngineCtrlEvent::MovePaddle(PADDLE, ActionID(0)),
        EngineAction::MovePaddleBy(PADDLE, Vec2::new(0, -1)),
    );
    game.events.add_ctrl_event(
        EngineCtrlEvent::ServePressed(PADDLE, ActionID(1)),
        EngineAction::SetBallVel(BALL, Vec2::new(1, 1)),
    );
    game.events.add_ctrl_event(
        EngineCtrlEvent::ServePressed(PADDLE, ActionID(1)),
        EngineAction::SetKeyInvalid(PADDLE, ActionID(1)),
    );
    assert_eq!(game.events.control.len(), 2);
    assert_eq!(game.events.control[1].1.len(), 2);
    game.control(&frame(&[], &[]));
    assert_eq!(game.logics.collision.centers[0], Vec2::new(5, 50));
    game.control(&frame(&['q', 'w'], &[]));
    assert_eq!(game.logics.collision.centers[0], Vec2::new(5, 49));
    assert_eq!(game.logics.physics.velocities, vec![Vec2::new(1, 1)]);
    assert!(!game.logics.control.mapping[0][1].is_valid);
    act(&mut game, EngineAction::SetBallVel(BALL, Vec2::new(0, 0)));
    game.control(&frame(&['q', 'w'], &['q', 'w']));
    assert_eq!(game.logics.collision.centers[0], Vec2::new(5, 48));
    assert_eq!(game.logics.physics.velocities, vec![Vec2::new(0, 0)]);
    game.control(&frame(&[], &['q', 'w']));
    assert_eq!(game.logics.collision.centers[0], Vec2::new(5, 48));
}

#[test]
fn key_event_is_found_among_those_reported() {
    let keys = vec![
        ControlEvent { event_type: ControlEventType::KeyPressed, set: 0, action_id: ActionID(1) },
        ControlEvent { event_type: ControlEventType::KeyHeld, set: 0, action_id: ActionID(1) },
    ];
    assert!(key_reported(&keys, &EngineCtrlEvent::MovePaddle(PADDLE, ActionID(1))));
    assert!(key_reported(&keys, &EngineCtrlEvent::ServePressed(PADDLE, ActionID(1))));
    assert!(!key_reported(&keys, &EngineCtrlEvent::MovePaddle(PADDLE, ActionID(0))));
    assert!(!key_reported(&keys, &EngineCtrlEvent::MovePaddle(PaddleID(1), ActionID(1))));
    assert!(!key_reported(&keys[1..], &EngineCtrlEvent::ServePressed(PADDLE, ActionID(1))));
}

#[test]
fn queue_is_ordered_by_number_with_the_greatest_first() {
    let mut queue = vec![
        EntID::Wall(WallID(0)),
        EntID::Ball(BallID(2)),
        EntID::Paddle(PaddleID(1)),
        EntID::Score(ScoreID(2)),
    ];
    sort_queue(&mut queue);
    assert_eq!(
        queue,
        vec![
            EntID::Ball(BallID(2)),
            EntID::Score(ScoreID(2)),
            EntID::Paddle(PaddleID(1)),
            EntID::Wall(WallID(0)),
        ]
    );
}

#[test]
fn queues_are_emptied_between_frames() {
    let mut game = court();
    game.state.queue_remove(EntID::Wall(LEFT));
    game.state.queue_remove(EntID::Ball(BALL));
    game.state.queue_remove(EntID::Wall(WallID(9)));
    game.state.queue_add(Ent::Ball(Ball::new(Vec2::new(20, 20), Vec2::new(2, 2))));
    game.state.queue_add(Ent::Score(Score::new(4, Vec2::new(0, 0))));
    assert!(game.room_for(2));
    assert!(!game.room_for(usize::MAX));
    game.apply_queues();
    assert!(game.state.remove_queue.is_empty());
    assert!(game.state.add_queue.is_empty());
    assert_eq!(game.state.walls, vec![RIGHT]);
    assert_eq!(game.state.balls, vec![BallID(1)]);
    assert_eq!(game.state.scores, vec![SCORE, ScoreID(1)]);
    assert_eq!(
        game.logics.collision.centers,
        vec![Vec2::new(5, 50), Vec2::new(105, 50), Vec2::new(21, 21)]
    );
    assert_eq!(game.logics.physics.positions, vec![Vec2::new(20, 20)]);
    assert_eq!(game.logics.resources.items[1].1.val, 4);
}

#[test]
fn what_is_watched_for_is_kept_by_event() {
    let mut events: Events<char> = Events::new();
    let held = EngineCtrlEvent::MovePaddle(PADDLE, ActionID(0));
    events.add_ctrl_event(held, EngineAction::MovePaddleBy(PADDLE, Vec2::new(0, 1)));
    events.add_ctrl_events(
        held,
        vec![EngineAction::SetBallVel(BALL, Vec2::new(0, 0)), EngineAction::RemoveEntity(None)],
    );
    events.add_ctrl_event(
        EngineCtrlEvent::ServePressed(PADDLE, ActionID(0)),
        EngineAction::RemoveEntity(None),
    );
    assert_eq!(events.control.len(), 2);
    assert_eq!(events.control[0].1.len(), 3);
    assert!(matches!(events.control[0].1[1], EngineAction::SetBallVel(BallID(0), _)));
    let increased = EngineRsrcEvent::ScoreIncreased(SCORE);
    events.add_rsrc_event(increased, EngineAction::ChangeScore(SCORE, 0));
    events.add_rsrc_events(increased, vec![EngineAction::RemoveEntity(None)]);
    events.add_rsrc_events(EngineRsrcEvent::ScoreEquals(SCORE, 3), Vec::new());
    assert_eq!(events.resources.len(), 2);
    assert_eq!(events.resources[0].1.len(), 2);
    let any = EngineCollisionEvent::Match(EntityMatch::All, EntityMatch::All);
    events.add_col_events(any, Vec::new());
    let any = EngineCollisionEvent::Match(EntityMatch::All, EntityMatch::All);
    events.add_col_events(any, vec![EngineAction::RemoveEntity(None)]);
    assert_eq!(events.collision.len(), 2);
}

#[test]
fn paddle_numbers_its_actions_in_order() {
    let mut paddle: Paddle<char> = Paddle::new(Vec2::new(1, 2), Vec2::new(3, 4));
    assert_eq!(paddle.add_control_map('a', true), ActionID(0));
    assert_eq!(paddle.add_control_map('b', false), ActionID(1));
    assert_eq!(paddle.controls, vec![(ActionID(0), 'a', true), (ActionID(1), 'b', false)]);
    let copy = paddle.copy();
    assert_eq!(copy.pos, Vec2::new(1, 2));
    assert_eq!(copy.size, Vec2::new(3, 4));
    assert_eq!(copy.controls, paddle.controls);
    assert_eq!(Ball::new(Vec2::new(1, 1), Vec2::new(2, 2)).vel, Vec2::new(0, 0));
}

#[test]
fn blocks_stand_in_five_rows_of_eight() {
    let size = Vec2::new(32, 16);
    let blocks = add_blocks(size);
    assert_eq!(blocks.len(), 40);
    assert_eq!(blocks[0], Wall::new(Vec2::new(0, 0), size));
    assert_eq!(blocks[7], Wall::new(Vec2::new(224, 0), size));
    assert_eq!(blocks[8], Wall::new(Vec2::new(0, 16), size));
    assert_eq!(blocks[39], Wall::new(Vec2::new(224, 64), size));
    assert!(blocks.iter().all(|block| block.size == size));
}
