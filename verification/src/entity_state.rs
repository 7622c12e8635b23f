//! Entity-state logics.
//!
//! An entity-state logic says that the entities of a game act in different
//! ways at different times. It keeps a state machine for each entity, moves
//! each machine when one of the states next to its own is open, and reports
//! which states are open and which machines moved.

use crate::graph::{describes, open_nodes, targets_exist, tells_apart, StateMachine};
use crate::{Event, EventType, Logic, Reaction};
use vstd::prelude::*;

verus! {

/// What happened to a state: it is open, or a machine moved to it.
#[derive(Clone, Copy, PartialEq, Eq, Structural, Debug)]
pub enum EntityEventType {
    /// The node is open.
    Activated,
    /// The machine moved to the node, from the node given here.
    Traversed(usize),
}

/// Something that happened in the machine `graph`, at its node `node`.
#[derive(Clone, Copy, PartialEq, Eq, Structural, Debug)]
pub struct EntityEvent {
    pub graph: usize,
    pub node: usize,
    pub event_type: EntityEventType,
}

/// A change to the machines of an entity-state logic: `(graph, node)`.
#[derive(Clone, Copy, PartialEq, Eq, Structural, Debug)]
pub enum EntityReaction {
    /// Opens a node.
    Activate(usize, usize),
    /// Puts a machine at a node.
    Traverse(usize, usize),
}

/// An entity-state logic for flat state machines.
pub struct FlatEntityState<ID: Copy + Eq> {
    /// One state machine for each entity.
    pub graphs: Vec<StateMachine<ID>>,
    /// For each machine, whether it moved in the last step.
    pub just_traversed: Vec<bool>,
    events: Vec<EntityEvent>,
}

/// The events that machine `graph` gives rise to in a step: one for each open
/// node, in rising order, and then one for its move, if it makes one.
pub open spec fn step_events<ID: Copy + Eq>(machine: StateMachine<ID>, graph: int) -> Seq<
    EntityEvent,
> {
    let open = open_nodes(machine.conditions@, machine.conditions@.len() as int);
    let activated = Seq::new(
        open.len(),
        |k: int|
            EntityEvent {
                graph: graph as usize,
                node: open[k],
                event_type: EntityEventType::Activated,
            },
    );
    match machine.next_node() {
        Some(node) => activated.push(
            EntityEvent {
                graph: graph as usize,
                node,
                event_type: EntityEventType::Traversed(machine.current_node),
            },
        ),
        None => activated,
    }
}

/// The events of the first `n` machines, machine by machine.
pub open spec fn events_of<ID: Copy + Eq>(machines: Seq<StateMachine<ID>>, n: int) -> Seq<
    EntityEvent,
>
    decreases n,
{
    if n <= 0 {
        Seq::empty()
    } else {
        events_of(machines, n - 1) + step_events(machines[n - 1], n - 1)
    }
}

/// `after` is `before` one step later: the same graph and conditions, and the
/// machine at the node that `next_node` names, or where it was.
pub open spec fn stepped<ID: Copy + Eq>(before: StateMachine<ID>, after: StateMachine<ID>) -> bool {
    &&& after.graph == before.graph
    &&& after.conditions == before.conditions
    &&& after.current_node == match before.next_node() {
        Some(node) => node,
        None => before.current_node,
    }
}

impl<ID: Copy + Eq> FlatEntityState<ID> {
    /// The state machines.
    pub closed spec fn machines(&self) -> Seq<StateMachine<ID>> {
        self.graphs@
    }

    /// For each machine, whether it moved in the last step.
    pub closed spec fn traversed(&self) -> Seq<bool> {
        self.just_traversed@
    }

    /// The events of the last step.
    pub closed spec fn reported(&self) -> Seq<EntityEvent> {
        self.events@
    }

    /// Every machine is well formed and stands at a node, and each has its
    /// flag.
    pub open spec fn wf(&self) -> bool {
        &&& self.traversed().len() == self.machines().len()
        &&& forall|g: int| 0 <= g < self.machines().len() ==> (#[trigger] self.machines()[g]).placed()
    }

    /// A logic without machines.
    pub fn new() -> (logic: Self)
        ensures
            logic.wf(),
            logic.machines().len() == 0,
            logic.reported() == Seq::<EntityEvent>::empty(),
    {
        Self { graphs: Vec::new(), just_traversed: Vec::new(), events: Vec::new() }
    }

    /// Takes a step. Each machine reports its open nodes; then it moves along
    /// the first edge from its node that leads to an open node, if there is one,
    /// and reports the move.
    pub fn update(&mut self)
        requires
            old(self).wf(),
        ensures
            final(self).wf(),
            final(self).machines().len() == old(self).machines().len(),
            forall|g: int|
                0 <= g < old(self).machines().len() ==> stepped(
                    old(self).machines()[g],
                    #[trigger] final(self).machines()[g],
                ),
            forall|g: int|
                0 <= g < old(self).machines().len() ==> #[trigger] final(self).traversed()[g]
                    == old(self).machines()[g].next_node().is_some(),
            final(self).reported() == events_of(
                old(self).machines(),
                old(self).machines().len() as int,
            ),
    {
        let n: usize = self.graphs.len();
        self.events.clear();
        let mut i: usize = 0;
        while i < n
            invariant
                i <= n,
                n == old(self).graphs@.len(),
                self.graphs@.len() == n,
                self.just_traversed@.len() == n,
                old(self).wf(),
                forall|g: int| 0 <= g < n ==> (#[trigger] self.graphs@[g]).placed(),
                forall|g: int| 0 <= g < i ==> stepped(old(self).graphs@[g], #[trigger] self.graphs@[g]),
                forall|g: int| i <= g < n ==> #[trigger] self.graphs@[g] == old(self).graphs@[g],
                forall|g: int|
                    0 <= g < i ==> #[trigger] self.just_traversed@[g] == old(self).graphs@[g].next_node().is_some(),
                self.events@ == events_of(old(self).graphs@, i as int),
            decreases n - i,
        {
            let ghost machines = self.graphs@;
            let ghost flags = self.just_traversed@;
            let ghost before = machines[i as int];
            let ghost so_far = self.events@;
            assert(before.placed());
            let open = self.graphs[i].open_nodes();
            let mut k: usize = 0;
            while k < open.len()
                invariant
                    k <= open@.len(),
                    self.graphs@ == machines,
                    self.just_traversed@ == flags,
                    self.events@ == so_far + Seq::new(
                        k as nat,
                        |m: int|
                            EntityEvent {
                                graph: i,
                                node: open@[m],
                                event_type: EntityEventType::Activated,
                            },
                    ),
                decreases open@.len() - k,
            {
                self.events.push(
                    EntityEvent { graph: i, node: open[k], event_type: EntityEventType::Activated },
                );
                k += 1;
                assert(self.events@ =~= so_far + Seq::new(
                    k as nat,
                    |m: int|
                        EntityEvent {
                            graph: i,
                            node: open@[m],
                            event_type: EntityEventType::Activated,
                        },
                ));
            }
            let from: usize = self.graphs[i].current_node;
            let moved = self.graphs[i].advance();
            match moved {
                Some(node) => {
                    self.just_traversed.set(i, true);
                    self.events.push(
                        EntityEvent {
                            graph: i,
                            node,
                            event_type: EntityEventType::Traversed(from),
                        },
                    );
                },
                None => {
                    self.just_traversed.set(i, false);
                },
            }
            assert(self.events@ =~= so_far + step_events(before, i as int));
            i += 1;
        }
    }

    /// What the state stands for in which entity `ent` is.
    pub fn get_id_for_entity(&self, ent: usize) -> (id: ID)
        requires
            self.wf(),
            ent < self.machines().len(),
        ensures
            id == self.machines()[ent as int].graph.nodes@[self.machines()[ent as int].current_node as int],
    {
        self.graphs[ent].get_current_node()
    }

    /// Adds a state machine behind the others. Entry `n` of `edges` gives what
    /// node `n` stands for, and what the nodes stand for that it has an edge to.
    /// The machine starts at node `starting_pos`, with every node closed.
    pub fn add_graph<const NUM_NODES: usize>(
        &mut self,
        starting_pos: usize,
        edges: [(ID, &[ID]); NUM_NODES],
    )
        requires
            old(self).wf(),
            tells_apart::<ID>(),
            starting_pos < NUM_NODES,
            targets_exist(edges@),
        ensures
            final(self).wf(),
            final(self).machines().len() == old(self).machines().len() + 1,
            final(self).machines().drop_last() == old(self).machines(),
            describes(edges@, starting_pos, final(self).machines().last()),
            final(self).traversed() == old(self).traversed().push(false),
            final(self).reported() == old(self).reported(),
    {
        let graph = StateMachine::from_edges(starting_pos, edges);
        self.graphs.push(graph);
        self.just_traversed.push(false);
        assert(self.graphs@.drop_last() =~= old(self).graphs@);
    }

    /// The state in which entity `ident` is, to read.
    fn state(&self, ident: usize) -> (id: &ID)
        requires
            self.wf(),
            ident < self.machines().len(),
        ensures
            *id == self.machines()[ident as int].graph.nodes@[self.machines()[ident as int].current_node as int],
    {
        &self.graphs[ident].graph.nodes[self.graphs[ident].current_node]
    }
}

impl EventType for EntityEventType {

}

impl Event for EntityEvent {
    type EventType = EntityEventType;

    fn get_type(&self) -> (kind: &EntityEventType)
        ensures
            *kind == self.event_type,
    {
        &self.event_type
    }
}

impl Reaction for EntityReaction {

}

impl<ID: Copy + Eq + 'static> Logic for FlatEntityState<ID> {
    type Event = EntityEvent;

    type Reaction = EntityReaction;

    /// The index of a machine.
    type Ident = usize;

    /// What the node stands for at which the machine is.
    type IdentData<'a> = &'a mut ID;

    type DataIter<'logic> = FesDataIter<'logic, ID>;

    open spec fn wf(&self) -> bool {
        &&& self.traversed().len() == self.machines().len()
        &&& forall|g: int| 0 <= g < self.machines().len() ==> (#[trigger] self.machines()[g]).placed()
    }

    open spec fn accepts(&self, reaction: &EntityReaction) -> bool {
        match *reaction {
            EntityReaction::Activate(graph, node) => graph < self.machines().len() && node
                < self.machines()[graph as int].graph.len(),
            EntityReaction::Traverse(graph, node) => graph < self.machines().len() && node
                < self.machines()[graph as int].graph.len(),
        }
    }

    open spec fn has(&self, ident: usize) -> bool {
        ident < self.machines().len()
    }

    /// Opens a node, or puts a machine at a node.
    fn handle_predicate(&mut self, reaction: &EntityReaction)
        ensures
            final(self).machines().len() == old(self).machines().len(),
            final(self).reported() == old(self).reported(),
            match *reaction {
                EntityReaction::Activate(graph, node) => {
                    &&& final(self).traversed() == old(self).traversed()
                    &&& forall|g: int|
                        0 <= g < old(self).machines().len() && g != graph ==> final(self).machines()[g] == old(self).machines()[g]
                    &&& final(self).machines()[graph as int].graph == old(self).machines()[graph as int].graph
                    &&& final(self).machines()[graph as int].current_node == old(self).machines()[graph as int].current_node
                    &&& final(self).machines()[graph as int].conditions@ == old(self).machines()[graph as int].conditions@.update(node as int, true)
                },
                EntityReaction::Traverse(graph, node) => {
                    &&& final(self).traversed() == old(self).traversed().update(graph as int, true)
                    &&& forall|g: int|
                        0 <= g < old(self).machines().len() && g != graph ==> final(self).machines()[g] == old(self).machines()[g]
                    &&& final(self).machines()[graph as int].graph == old(self).machines()[graph as int].graph
                    &&& final(self).machines()[graph as int].conditions == old(self).machines()[graph as int].conditions
                    &&& final(self).machines()[graph as int].current_node == node
                },
            },
    {
        match reaction {
            EntityReaction::Activate(graph, node) => {
                let machine = &mut self.graphs[*graph];
                machine.conditions.set(*node, true);
            },
            EntityReaction::Traverse(graph, node) => {
                let machine = &mut self.graphs[*graph];
                machine.set_current_node(*node);
                self.just_traversed.set(*graph, true);
            },
        }
    }

    /// What the node stands for at which machine `ident` is, to change in
    /// place.
    fn get_ident_data(&mut self, ident: usize) -> (id: &mut ID)
        ensures
            *id == old(self).machines()[ident as int].graph.nodes@[old(self).machines()[ident as int].current_node as int],
            final(self).machines().len() == old(self).machines().len(),
            forall|g: int|
                0 <= g < old(self).machines().len() && g != ident ==> final(self).machines()[g]
                    == old(self).machines()[g],
            final(self).machines()[ident as int].graph.nodes@ == old(self).machines()[ident as int].graph.nodes@.update(
                old(self).machines()[ident as int].current_node as int,
                *final(id),
            ),
            final(self).machines()[ident as int].graph.edges == old(self).machines()[ident as int].graph.edges,
            final(self).machines()[ident as int].conditions == old(self).machines()[ident as int].conditions,
            final(self).machines()[ident as int].current_node == old(self).machines()[ident as int].current_node,
            final(self).traversed() == old(self).traversed(),
            final(self).reported() == old(self).reported(),
    {
        let graph = &mut self.graphs[ident];
        &mut graph.graph.nodes[graph.current_node]
    }

    /// A walk over the machines, in order.
    fn data_iter(&mut self) -> (iter: FesDataIter<'_, ID>)
        ensures
            iter.wf(),
            iter.machines() == old(self).machines(),
            iter.position() == 0,
            *final(self) == *old(self),
    {
        FesDataIter { ent_state: &*self, count: 0 }
    }

    /// The events of the last step.
    fn events(&self) -> (events: &[EntityEvent])
        ensures
            events@ == self.reported(),
    {
        self.events.as_slice()
    }
}

/// A walk over the machines of an entity-state logic: each with its index and
/// with what its present node stands for.
pub struct FesDataIter<'logic, ID: Copy + Eq + 'static> {
    ent_state: &'logic FlatEntityState<ID>,
    count: usize,
}

impl<'logic, ID: Copy + Eq + 'static> FesDataIter<'logic, ID> {
    /// The machines that are walked over.
    pub closed spec fn machines(&self) -> Seq<StateMachine<ID>> {
        self.ent_state.machines()
    }

    /// The index of the machine that comes next.
    pub closed spec fn position(&self) -> nat {
        self.count as nat
    }

    /// The walk has not gone past the last machine, and the logic is well
    /// formed.
    pub closed spec fn wf(&self) -> bool {
        self.ent_state.wf() && self.count <= self.ent_state.machines().len()
    }

    /// The next machine, or `None` after the last one.
    pub fn next(&mut self) -> (item: Option<(usize, &ID)>)
        requires
            old(self).wf(),
        ensures
            final(self).wf(),
            final(self).machines() == old(self).machines(),
            item.is_some() <==> old(self).position() < old(self).machines().len(),
            item.is_none() ==> final(self).position() == old(self).position(),
            item matches Some((idx, id)) ==> {
                &&& idx == old(self).position()
                &&& final(self).position() == idx + 1
                &&& *id == old(self).machines()[idx as int].graph.nodes@[old(self).machines()[idx as int].current_node as int]
            },
    {
        if self.count == self.ent_state.graphs.len() {
            None
        } else {
            self.count += 1;
            Some((self.count - 1, self.ent_state.state(self.count - 1)))
        }
    }
}

/// A walk over the events of the last step of an entity-state logic.
pub struct FesEventIter<'logic, ID: Copy + Eq + 'static> {
    ent_state: &'logic FlatEntityState<ID>,
    count: usize,
}

impl<'logic, ID: Copy + Eq + 'static> FesEventIter<'logic, ID> {
    /// A walk over the events of `ent_state`, from the first.
    pub fn new(ent_state: &'logic FlatEntityState<ID>) -> (iter: Self)
        ensures
            iter.wf(),
            iter.events() == ent_state.reported(),
            iter.position() == 0,
    {
        FesEventIter { ent_state, count: 0 }
    }

    /// The events that are walked over.
    pub closed spec fn events(&self) -> Seq<EntityEvent> {
        self.ent_state.reported()
    }

    /// The index of the event that comes next.
    pub closed spec fn position(&self) -> nat {
        self.count as nat
    }

    /// The walk has not gone past the last event.
    pub closed spec fn wf(&self) -> bool {
        self.count <= self.ent_state.reported().len()
    }

    /// The next event, or `None` after the last one.
    pub fn next(&mut self) -> (item: Option<&EntityEvent>)
        requires
            old(self).wf(),
        ensures
            final(self).wf(),
            final(self).events() == old(self).events(),
            match item {
                Some(event) => {
                    &&& old(self).position() < old(self).events().len()
                    &&& *event == old(self).events()[old(self).position() as int]
                    &&& final(self).position() == old(self).position() + 1
                },
                None => {
                    &&& old(self).position() == old(self).events().len()
                    &&& final(self).position() == old(self).position()
                },
            },
    {
        if self.count == self.ent_state.events.len() {
            None
        } else {
            self.count += 1;
            Some(&self.ent_state.events[self.count - 1])
        }
    }
}

} // verus!
