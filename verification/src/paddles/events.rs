//! What a game of paddles watches for, and what it then does.

use crate::geometry::Vec2;
use crate::paddles::ids::{ActionID, BallID, EntID, EntType, PaddleID, ScoreID};
use crate::paddles::types::Ent;
use vstd::prelude::*;
use vstd::std_specs::cmp::PartialEqSpecImpl;

verus! {

/// Something in the control logic that the game watches for.
#[derive(Clone, Copy, Eq, Debug)]
pub enum EngineCtrlEvent {
    /// The key of an action of a paddle is held.
    MovePaddle(PaddleID, ActionID),
    /// The key of an action of a paddle went down.
    ServePressed(PaddleID, ActionID),
}

impl PartialEq for EngineCtrlEvent {
    fn eq(&self, other: &Self) -> (same: bool) {
        match (self, other) {
            (EngineCtrlEvent::MovePaddle(p, a), EngineCtrlEvent::MovePaddle(q, b)) => p.0 == q.0
                && a.0 == b.0,
            (EngineCtrlEvent::ServePressed(p, a), EngineCtrlEvent::ServePressed(q, b)) => p.0
                == q.0 && a.0 == b.0,
            _ => false,
        }
    }
}

impl PartialEqSpecImpl for EngineCtrlEvent {
    open spec fn obeys_eq_spec() -> bool {
        true
    }

    open spec fn eq_spec(&self, other: &Self) -> bool {
        match (*self, *other) {
            (EngineCtrlEvent::MovePaddle(p, a), EngineCtrlEvent::MovePaddle(q, b)) => p.0 == q.0
                && a.0 == b.0,
            (EngineCtrlEvent::ServePressed(p, a), EngineCtrlEvent::ServePressed(q, b)) => p.0
                == q.0 && a.0 == b.0,
            _ => false,
        }
    }
}

/// Which entities a contact is to involve.
#[derive(Clone, Copy, Debug)]
pub enum EntityMatch {
    /// This entity.
    ByID(EntID),
    /// Any entity of this kind.
    ByType(EntType),
    /// Any entity.
    All,
}

/// Something in the collision logic that the game watches for: a contact
/// whose first body matches the first pattern and whose second body matches
/// the second.
#[derive(Clone, Copy, Debug)]
pub enum EngineCollisionEvent {
    Match(EntityMatch, EntityMatch),
}

/// Something in the resource logic that the game watches for.
#[derive(Clone, Copy, Eq, Debug)]
pub enum EngineRsrcEvent {
    /// The score went up by one.
    ScoreIncreased(ScoreID),
    /// The score was set to zero.
    ScoreReset(ScoreID),
    /// The score was changed and now stands at the given number.
    ScoreEquals(ScoreID, i16),
}

impl PartialEq for EngineRsrcEvent {
    fn eq(&self, other: &Self) -> (same: bool) {
        match (self, other) {
            (EngineRsrcEvent::ScoreIncreased(s), EngineRsrcEvent::ScoreIncreased(t)) => s.0 == t.0,
            (EngineRsrcEvent::ScoreReset(s), EngineRsrcEvent::ScoreReset(t)) => s.0 == t.0,
            (EngineRsrcEvent::ScoreEquals(s, v), EngineRsrcEvent::ScoreEquals(t, w)) => s.0 == t.0
                && *v == *w,
            _ => false,
        }
    }
}

impl PartialEqSpecImpl for EngineRsrcEvent {
    open spec fn obeys_eq_spec() -> bool {
        true
    }

    open spec fn eq_spec(&self, other: &Self) -> bool {
        match (*self, *other) {
            (EngineRsrcEvent::ScoreIncreased(s), EngineRsrcEvent::ScoreIncreased(t)) => s.0 == t.0,
            (EngineRsrcEvent::ScoreReset(s), EngineRsrcEvent::ScoreReset(t)) => s.0 == t.0,
            (EngineRsrcEvent::ScoreEquals(s, v), EngineRsrcEvent::ScoreEquals(t, w)) => s.0 == t.0
                && v == w,
            _ => false,
        }
    }
}

/// Something that the game does when what it watches for has happened.
#[derive(Debug)]
pub enum EngineAction<KeyCode: Copy> {
    /// Turns a ball around along the axis on which it touches the entity. With
    /// no entity given, the ball bounces off whatever the contact names.
    BounceBall(BallID, Option<EntID>),
    SetBallVel(BallID, Vec2),
    SetBallPos(BallID, Vec2),
    SetPaddlePos(PaddleID, Vec2),
    MovePaddleBy(PaddleID, Vec2),
    SetKeyValid(PaddleID, ActionID),
    SetKeyInvalid(PaddleID, ActionID),
    ChangeScoreBy(ScoreID, i16),
    ChangeScore(ScoreID, i16),
    /// Notes that the entities that match are to be removed. With no pattern
    /// given, the second body of the contact is removed.
    RemoveEntity(Option<EntityMatch>),
    /// Notes that an entity is to be added.
    AddEntity(Ent<KeyCode>),
}

/// What an action is made of.
pub enum ActionView<KeyCode> {
    BounceBall(BallID, Option<EntID>),
    SetBallVel(BallID, Vec2),
    SetBallPos(BallID, Vec2),
    SetPaddlePos(PaddleID, Vec2),
    MovePaddleBy(PaddleID, Vec2),
    SetKeyValid(PaddleID, ActionID),
    SetKeyInvalid(PaddleID, ActionID),
    ChangeScoreBy(ScoreID, i16),
    ChangeScore(ScoreID, i16),
    RemoveEntity(Option<EntityMatch>),
    AddEntity(crate::paddles::types::EntView<KeyCode>),
}

impl<KeyCode: Copy> View for EngineAction<KeyCode> {
    type V = ActionView<KeyCode>;

    open spec fn view(&self) -> ActionView<KeyCode> {
        match *self {
            EngineAction::BounceBall(ball, ent) => ActionView::BounceBall(ball, ent),
            EngineAction::SetBallVel(ball, vel) => ActionView::SetBallVel(ball, vel),
            EngineAction::SetBallPos(ball, pos) => ActionView::SetBallPos(ball, pos),
            EngineAction::SetPaddlePos(paddle, pos) => ActionView::SetPaddlePos(paddle, pos),
            EngineAction::MovePaddleBy(paddle, by) => ActionView::MovePaddleBy(paddle, by),
            EngineAction::SetKeyValid(paddle, action) => ActionView::SetKeyValid(paddle, action),
            EngineAction::SetKeyInvalid(paddle, action) => ActionView::SetKeyInvalid(
                paddle,
                action,
            ),
            EngineAction::ChangeScoreBy(score, by) => ActionView::ChangeScoreBy(score, by),
            EngineAction::ChangeScore(score, to) => ActionView::ChangeScore(score, to),
            EngineAction::RemoveEntity(pattern) => ActionView::RemoveEntity(pattern),
            EngineAction::AddEntity(ent) => ActionView::AddEntity(ent@),
        }
    }
}

/// What each action of a list is made of.
pub open spec fn action_views<KeyCode: Copy>(actions: Seq<EngineAction<KeyCode>>) -> Seq<
    ActionView<KeyCode>,
> {
    Seq::new(actions.len(), |k: int| actions[k]@)
}

/// What the game watches for, each with what it then does.
pub struct Events<KeyCode: Copy> {
    pub control: Vec<(EngineCtrlEvent, Vec<EngineAction<KeyCode>>)>,
    pub collision: Vec<(EngineCollisionEvent, Vec<EngineAction<KeyCode>>)>,
    pub resources: Vec<(EngineRsrcEvent, Vec<EngineAction<KeyCode>>)>,
}

/// A list of things watched for, each with what is then done.
pub type Watched<E, KeyCode> = Seq<(E, Seq<ActionView<KeyCode>>)>;

/// What a list of things watched for is made of.
pub open spec fn watched<E, KeyCode: Copy>(list: Seq<(E, Vec<EngineAction<KeyCode>>)>) -> Watched<
    E,
    KeyCode,
> {
    Seq::new(list.len(), |k: int| (list[k].0, action_views(list[k].1@)))
}

/// The first position in `list`, from `from` on, at which `event` is watched
/// for; the length of `list` where it is not.
pub open spec fn first_watch<E, KeyCode>(list: Watched<E, KeyCode>, event: E, from: int) -> int
    decreases list.len() - from,
{
    if from < 0 || from >= list.len() {
        list.len() as int
    } else if list[from].0 == event {
        from
    } else {
        first_watch(list, event, from + 1)
    }
}

/// `first_watch` gives a position at or behind `from` at which the event is
/// watched for, or the length.
pub proof fn lemma_first_watch<E, KeyCode>(list: Watched<E, KeyCode>, event: E, from: int)
    requires
        0 <= from <= list.len(),
    ensures
        from <= first_watch(list, event, from) <= list.len(),
        first_watch(list, event, from) < list.len() ==> list[first_watch(list, event, from)].0
            == event,
    decreases list.len() - from,
{
    if from < list.len() && list[from].0 != event {
        lemma_first_watch(list, event, from + 1);
    }
}

/// `list` with more to do when `event` happens: behind what is done already
/// where the event is watched for, and else as a new entry behind the others.
pub open spec fn with_actions<E, KeyCode>(
    list: Watched<E, KeyCode>,
    event: E,
    actions: Seq<ActionView<KeyCode>>,
) -> Watched<E, KeyCode> {
    let at = first_watch(list, event, 0);
    if at < list.len() {
        list.update(at, (event, list[at].1 + actions))
    } else {
        list.push((event, actions))
    }
}

/// Where `event` is watched for among the control events, or `None`.
pub fn find_ctrl<KeyCode: Copy>(
    list: &Vec<(EngineCtrlEvent, Vec<EngineAction<KeyCode>>)>,
    event: EngineCtrlEvent,
) -> (at: Option<usize>)
    ensures
        match at {
            Some(k) => k < list@.len() && k == first_watch(watched(list@), event, 0),
            None => first_watch(watched(list@), event, 0) == list@.len(),
        },
{
    let mut k: usize = 0;
    while k < list.len()
        invariant
            k <= list@.len(),
            first_watch(watched(list@), event, 0) == first_watch(watched(list@), event, k as int),
        decreases list@.len() - k,
    {
        if list[k].0 == event {
            return Some(k);
        }
        k += 1;
    }
    None
}

/// Where `event` is watched for among the resource events, or `None`.
pub fn find_rsrc<KeyCode: Copy>(
    list: &Vec<(EngineRsrcEvent, Vec<EngineAction<KeyCode>>)>,
    event: EngineRsrcEvent,
) -> (at: Option<usize>)
    ensures
        match at {
            Some(k) => k < list@.len() && k == first_watch(watched(list@), event, 0),
            None => first_watch(watched(list@), event, 0) == list@.len(),
        },
{
    let mut k: usize = 0;
    while k < list.len()
        invariant
            k <= list@.len(),
            first_watch(watched(list@), event, 0) == first_watch(watched(list@), event, k as int),
        decreases list@.len() - k,
    {
        if list[k].0 == event {
            return Some(k);
        }
        k += 1;
    }
    None
}

impl<KeyCode: Copy> Events<KeyCode> {
    /// Nothing is watched for.
    pub fn new() -> (events: Self)
        ensures
            events.control@.len() == 0,
            events.collision@.len() == 0,
            events.resources@.len() == 0,
    {
        Self { control: Vec::new(), collision: Vec::new(), resources: Vec::new() }
    }

    /// One more thing to do when something happens in the control logic.
    pub fn add_ctrl_event(&mut self, event: EngineCtrlEvent, reaction: EngineAction<KeyCode>)
        ensures
            watched(final(self).control@) == with_actions(
                watched(old(self).control@),
                event,
                seq![reaction@],
            ),
            final(self).collision == old(self).collision,
            final(self).resources == old(self).resources,
    {
        let mut reactions: Vec<EngineAction<KeyCode>> = Vec::new();
        reactions.push(reaction);
        assert(action_views(reactions@) =~= seq![reaction@]);
        self.add_ctrl_events(event, reactions);
    }

    /// More things to do when something happens in the control logic.
    pub fn add_ctrl_events(
        &mut self,
        event: EngineCtrlEvent,
        reactions: Vec<EngineAction<KeyCode>>,
    )
        ensures
            watched(final(self).control@) == with_actions(
                watched(old(self).control@),
                event,
                action_views(reactions@),
            ),
            final(self).collision == old(self).collision,
            final(self).resources == old(self).resources,
    {
        let ghost before = watched(self.control@);
        let mut reactions = reactions;
        let ghost more = action_views(reactions@);
        match find_ctrl(&self.control, event) {
            Some(idx) => {
                let ghost done = action_views(self.control@[idx as int].1@);
                proof {
                    lemma_first_watch(before, event, 0);
                }
                let entry = &mut self.control[idx];
                entry.1.append(&mut reactions);
                assert(action_views(self.control@[idx as int].1@) =~= done + more);
                assert(watched(self.control@)[idx as int] == (event, done + more));
                assert(watched(self.control@) =~= before.update(idx as int, (event, done + more)));
            },
            None => {
                self.control.push((event, reactions));
                assert(watched(self.control@) =~= before.push((event, more)));
            },
        }
    }

    /// Things to do when something happens in the collision logic. Each call
    /// makes an entry of its own.
    pub fn add_col_events(
        &mut self,
        event: EngineCollisionEvent,
        reactions: Vec<EngineAction<KeyCode>>,
    )
        ensures
            watched(final(self).collision@) == watched(old(self).collision@).push(
                (event, action_views(reactions@)),
            ),
            final(self).control == old(self).control,
            final(self).resources == old(self).resources,
    {
        let ghost before = watched(self.collision@);
        let ghost more = action_views(reactions@);
        self.collision.push((event, reactions));
        assert(watched(self.collision@) =~= before.push((event, more)));
    }

    /// One more thing to do when something happens in the resource logic.
    pub fn add_rsrc_event(&mut self, event: EngineRsrcEvent, reaction: EngineAction<KeyCode>)
        ensures
            watched(final(self).resources@) == with_actions(
                watched(old(self).resources@),
                event,
                seq![reaction@],
            ),
            final(self).control == old(self).control,
            final(self).collision == old(self).collision,
    {
        let mut reactions: Vec<EngineAction<KeyCode>> = Vec::new();
        reactions.push(reaction);
        assert(action_views(reactions@) =~= seq![reaction@]);
        self.add_rsrc_events(event, reactions);
    }

    /// More things to do when something happens in the resource logic.
    pub fn add_rsrc_events(
        &mut self,
        event: EngineRsrcEvent,
        reactions: Vec<EngineAction<KeyCode>>,
    )
        ensures
            watched(final(self).resources@) == with_actions(
                watched(old(self).resources@),
                event,
                action_views(reactions@),
            ),
            final(self).control == old(self).control,
            final(self).collision == old(self).collision,
    {
        let ghost before = watched(self.resources@);
        let mut reactions = reactions;
        let ghost more = action_views(reactions@);
        match find_rsrc(&self.resources, event) {
            Some(idx) => {
                let ghost done = action_views(self.resources@[idx as int].1@);
                proof {
                    lemma_first_watch(before, event, 0);
                }
                let entry = &mut self.resources[idx];
                entry.1.append(&mut reactions);
                assert(action_views(self.resources@[idx as int].1@) =~= done + more);
                assert(watched(self.resources@)[idx as int] == (event, done + more));
                assert(watched(self.resources@) =~= before.update(
                    idx as int,
                    (event, done + more),
                ));
            },
            None => {
                self.resources.push((event, reactions));
                assert(watched(self.resources@) =~= before.push((event, more)));
            },
        }
    }
}

} // verus!
