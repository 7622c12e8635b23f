//! Linking logics.
//!
//! A linking logic says that some things are connected to each other. It keeps
//! directed graphs of links, each with a place in it, follows a link when the
//! node it leads to is open, and reports which nodes are open and which links
//! were followed.

use crate::graph::{describes, open_nodes, targets_exist, tells_apart, StateMachine};
use crate::{Event, EventType, Logic, Reaction};
use vstd::prelude::*;

verus! {

/// What happened to a node: it is open, or a link to it was followed.
#[derive(Clone, Copy, PartialEq, Eq, Structural, Debug)]
pub enum LinkingEventType {
    /// The node is open.
    Activated,
    /// The machine moved to the node, from the node given here.
    Traversed(usize),
}

/// Something that happened in the machine `graph`, at its node `node`.
#[derive(Clone, Copy, PartialEq, Eq, Structural, Debug)]
pub struct LinkingEvent {
    pub graph: usize,
    pub node: usize,
    pub event_type: LinkingEventType,
}

/// A change to the graphs of a linking logic: `(graph, node)`.
#[derive(Clone, Copy, PartialEq, Eq, Structural, Debug)]
pub enum LinkingReaction {
    /// Opens a node.
    Activate(usize, usize),
    /// Puts a machine at a node.
    Traverse(usize, usize),
}

/// A linking logic over graphs.
pub struct GraphedLinking<ID: Copy + Eq> {
    /// The graphs, each with the node at which it stands.
    pub graphs: Vec<StateMachine<ID>>,
    /// For each machine, whether it moved in the last step.
    pub just_traversed: Vec<bool>,
    events: Vec<LinkingEvent>,
}

/// The events that machine `graph` gives rise to in a step: one for each open
/// node, in rising order, and then one for its move, if it makes one.
pub open spec fn step_events<ID: Copy + Eq>(machine: StateMachine<ID>, graph: int) -> Seq<
    LinkingEvent,
> {
    let open = open_nodes(machine.conditions@, machine.conditions@.len() as int);
    let activated = Seq::new(
        open.len(),
        |k: int|
            LinkingEvent {
                graph: graph as usize,
                node: open[k],
                event_type: LinkingEventType::Activated,
            },
    );
    match machine.next_node() {
        Some(node) => activated.push(
            LinkingEvent {
                graph: graph as usize,
                node,
                event_type: LinkingEventType::Traversed(machine.current_node),
            },
        ),
        None => activated,
    }
}

/// The events of the first `n` machines, machine by machine.
pub open spec fn events_of<ID: Copy + Eq>(machines: Seq<StateMachine<ID>>, n: int) -> Seq<
    LinkingEvent,
>
    decreases n,
{
    if n <= 0 {
        Seq::empty()
    } else {
        events_of(machines, n - 1) + step_events(machines[n - 1], n - 1)
    }
}

/// `after` is `before` one step later: the same graph and conditions, and the
/// machine at the node that `next_node` names, or where it was.
pub open spec fn stepped<ID: Copy + Eq>(before: StateMachine<ID>, after: StateMachine<ID>) -> bool {
    &&& after.graph == before.graph
    &&& after.conditions == before.conditions
    &&& after.current_node == match before.next_node() {
        Some(node) => node,
        None => before.current_node,
    }
}

impl<ID: Copy + Eq> GraphedLinking<ID> {
    /// The state machines.
    pub closed spec fn machines(&self) -> Seq<StateMachine<ID>> {
        self.graphs@
    }

    /// For each machine, whether it moved in the last step.
    pub closed spec fn traversed(&self) -> Seq<bool> {
        self.just_traversed@
    }

    /// The events of all steps so far.
    pub closed spec fn reported(&self) -> Seq<LinkingEvent> {
        self.events@
    }

    /// Every machine is well formed and stands at a node, and each has its
    /// flag.
    pub open spec fn wf(&self) -> bool {
        &&& self.traversed().len() == self.machines().len()
        &&& forall|g: int| 0 <= g < self.machines().len() ==> (#[trigger] self.machines()[g]).placed()
    }

    /// A logic without machines.
    pub fn new() -> (logic: Self)
        ensures
            logic.wf(),
            logic.machines().len() == 0,
            logic.reported() == Seq::<LinkingEvent>::empty(),
    {
        Self { graphs: Vec::new(), just_traversed: Vec::new(), events: Vec::new() }
    }

    /// Takes a step. Each graph reports its open nodes; then it follows the first
    /// link from its node that leads to an open node, if there is one, and
    /// reports that.
    ///
    /// The events of earlier steps are kept: those of this step are put behind
    /// them.
    pub fn update(&mut self)
        requires
            old(self).wf(),
        ensures
            final(self).wf(),
            final(self).machines().len() == old(self).machines().len(),
            forall|g: int|
                0 <= g < old(self).machines().len() ==> stepped(
                    old(self).machines()[g],
                    #[trigger] final(self).machines()[g],
                ),
            forall|g: int|
                0 <= g < old(self).machines().len() ==> #[trigger] final(self).traversed()[g]
                    == old(self).machines()[g].next_node().is_some(),
            final(self).reported() == old(self).reported() + events_of(
                old(self).machines(),
                old(self).machines().len() as int,
            ),
    {
        let n: usize = self.graphs.len();
        let mut i: usize = 0;
        while i < n
            invariant
                i <= n,
                n == old(self).graphs@.len(),
                self.graphs@.len() == n,
                self.just_traversed@.len() == n,
                old(self).wf(),
                forall|g: int| 0 <= g < n ==> (#[trigger] self.graphs@[g]).placed(),
                forall|g: int| 0 <= g < i ==> stepped(old(self).graphs@[g], #[trigger] self.graphs@[g]),
                forall|g: int| i <= g < n ==> #[trigger] self.graphs@[g] == old(self).graphs@[g],
                forall|g: int|
                    0 <= g < i ==> #[trigger] self.just_traversed@[g] == old(self).graphs@[g].next_node().is_some(),
                self.events@ == old(self).events@ + events_of(old(self).graphs@, i as int),
            decreases n - i,
        {
            let ghost machines = self.graphs@;
            let ghost flags = self.just_traversed@;
            let ghost before = machines[i as int];
            let ghost so_far = self.events@;
            assert(before.placed());
            let open = self.graphs[i].open_nodes();
            let mut k: usize = 0;
            while k < open.len()
                invariant
                    k <= open@.len(),
                    self.graphs@ == machines,
                    self.just_traversed@ == flags,
                    self.events@ == so_far + Seq::new(
                        k as nat,
                        |m: int|
                            LinkingEvent {
                                graph: i,
                                node: open@[m],
                                event_type: LinkingEventType::Activated,
                            },
                    ),
                decreases open@.len() - k,
            {
                self.events.push(
                    LinkingEvent { graph: i, node: open[k], event_type: LinkingEventType::Activated },
                );
                k += 1;
                assert(self.events@ =~= so_far + Seq::new(
                    k as nat,
                    |m: int|
                        LinkingEvent {
                            graph: i,
                            node: open@[m],
                            event_type: LinkingEventType::Activated,
                        },
                ));
            }
            let from: usize = self.graphs[i].current_node;
            let moved = self.graphs[i].advance();
            match moved {
                Some(node) => {
                    self.just_traversed.set(i, true);
                    self.events.push(
                        LinkingEvent {
                            graph: i,
                            node,
                            event_type: LinkingEventType::Traversed(from),
                        },
                    );
                },
                None => {
                    self.just_traversed.set(i, false);
                },
            }
            assert(self.events@ =~= so_far + step_events(before, i as int));
            assert(self.events@ =~= old(self).events@ + (events_of(old(self).graphs@, i as int)
                + step_events(before, i as int)));
            i += 1;
        }
    }

    /// Adds a state machine behind the others. Entry `n` of `edges` gives what
    /// node `n` stands for, and what the nodes stand for that it has an edge to.
    /// The machine starts at node `starting_pos`, with every node closed.
    pub fn add_graph<const NUM_NODES: usize>(
        &mut self,
        starting_pos: usize,
        edges: [(ID, &[ID]); NUM_NODES],
    )
        requires
            old(self).wf(),
            tells_apart::<ID>(),
            starting_pos < NUM_NODES,
            targets_exist(edges@),
        ensures
            final(self).wf(),
            final(self).machines().len() == old(self).machines().len() + 1,
            final(self).machines().drop_last() == old(self).machines(),
            describes(edges@, starting_pos, final(self).machines().last()),
            final(self).traversed() == old(self).traversed().push(false),
            final(self).reported() == old(self).reported(),
    {
        let graph = StateMachine::from_edges(starting_pos, edges);
        self.graphs.push(graph);
        self.just_traversed.push(false);
        assert(self.graphs@.drop_last() =~= old(self).graphs@);
    }

    /// What the node stands for at which graph `ident` stands, to read.
    fn state(&self, ident: usize) -> (id: &ID)
        requires
            self.wf(),
            ident < self.machines().len(),
        ensures
            *id == self.machines()[ident as int].graph.nodes@[self.machines()[ident as int].current_node as int],
    {
        &self.graphs[ident].graph.nodes[self.graphs[ident].current_node]
    }
}

impl EventType for LinkingEventType {

}

impl Event for LinkingEvent {
    type EventType = LinkingEventType;

    fn get_type(&self) -> (kind: &LinkingEventType)
        ensures
            *kind == self.event_type,
    {
        &self.event_type
    }
}

impl Reaction for LinkingReaction {

}

impl<ID: Copy + Eq + 'static> Logic for GraphedLinking<ID> {
    type Event = LinkingEvent;

    type Reaction = LinkingReaction;

    /// The index of a machine.
    type Ident = usize;

    /// What the node stands for at which the machine is.
    type IdentData<'a> = &'a mut ID;

    type DataIter<'logic> = LinkingDataIter<'logic, ID>;

    open spec fn wf(&self) -> bool {
        &&& self.traversed().len() == self.machines().len()
        &&& forall|g: int| 0 <= g < self.machines().len() ==> (#[trigger] self.machines()[g]).placed()
    }

    open spec fn accepts(&self, reaction: &LinkingReaction) -> bool {
        match *reaction {
            LinkingReaction::Activate(graph, node) => graph < self.machines().len() && node
                < self.machines()[graph as int].graph.len(),
            LinkingReaction::Traverse(graph, node) => graph < self.machines().len() && node
                < self.machines()[graph as int].graph.len(),
        }
    }

    open spec fn has(&self, ident: usize) -> bool {
        ident < self.machines().len()
    }

    /// Opens a node, or puts a machine at a node.
    fn handle_predicate(&mut self, reaction: &LinkingReaction)
        ensures
            final(self).machines().len() == old(self).machines().len(),
            final(self).reported() == old(self).reported(),
            match *reaction {
                LinkingReaction::Activate(graph, node) => {
                    &&& final(self).traversed() == old(self).traversed()
                    &&& forall|g: int|
                        0 <= g < old(self).machines().len() && g != graph ==> final(self).machines()[g] == old(self).machines()[g]
                    &&& final(self).machines()[graph as int].graph == old(self).machines()[graph as int].graph
                    &&& final(self).machines()[graph as int].current_node == old(self).machines()[graph as int].current_node
                    &&& final(self).machines()[graph as int].conditions@ == old(self).machines()[graph as int].conditions@.update(node as int, true)
                },
                LinkingReaction::Traverse(graph, node) => {
                    &&& final(self).traversed() == old(self).traversed().update(graph as int, true)
                    &&& forall|g: int|
                        0 <= g < old(self).machines().len() && g != graph ==> final(self).machines()[g] == old(self).machines()[g]
                    &&& final(self).machines()[graph as int].graph == old(self).machines()[graph as int].graph
                    &&& final(self).machines()[graph as int].conditions == old(self).machines()[graph as int].conditions
                    &&& final(self).machines()[graph as int].current_node == node
                },
            },
    {
        match reaction {
            LinkingReaction::Activate(graph, node) => {
                let machine = &mut self.graphs[*graph];
                machine.conditions.set(*node, true);
            },
            LinkingReaction::Traverse(graph, node) => {
                let machine = &mut self.graphs[*graph];
                machine.set_current_node(*node);
                self.just_traversed.set(*graph, true);
            },
        }
    }

    /// What the node stands for at which machine `ident` is, to change in
    /// place.
    fn get_ident_data(&mut self, ident: usize) -> (id: &mut ID)
        ensures
            *id == old(self).machines()[ident as int].graph.nodes@[old(self).machines()[ident as int].current_node as int],
            final(self).machines().len() == old(self).machines().len(),
            forall|g: int|
                0 <= g < old(self).machines().len() && g != ident ==> final(self).machines()[g]
                    == old(self).machines()[g],
            final(self).machines()[ident as int].graph.nodes@ == old(self).machines()[ident as int].graph.nodes@.update(
                old(self).machines()[ident as int].current_node as int,
                *final(id),
            ),
            final(self).machines()[ident as int].graph.edges == old(self).machines()[ident as int].graph.edges,
            final(self).machines()[ident as int].conditions == old(self).machines()[ident as int].conditions,
            final(self).machines()[ident as int].current_node == old(self).machines()[ident as int].current_node,
            final(self).traversed() == old(self).traversed(),
            final(self).reported() == old(self).reported(),
    {
        let graph = &mut self.graphs[ident];
        &mut graph.graph.nodes[graph.current_node]
    }

    /// A walk over the machines, in order.
    fn data_iter(&mut self) -> (iter: LinkingDataIter<'_, ID>)
        ensures
            iter.wf(),
            iter.machines() == old(self).machines(),
            iter.position() == 0,
            *final(self) == *old(self),
    {
        LinkingDataIter { linking: &*self, count: 0 }
    }

    /// The events of all steps so far.
    fn events(&self) -> (events: &[LinkingEvent])
        ensures
            events@ == self.reported(),
    {
        self.events.as_slice()
    }
}

/// A walk over the graphs of a linking logic: each with its index and with
/// what its present node stands for.
pub struct LinkingDataIter<'logic, ID: Copy + Eq + 'static> {
    linking: &'logic GraphedLinking<ID>,
    count: usize,
}

impl<'logic, ID: Copy + Eq + 'static> LinkingDataIter<'logic, ID> {
    /// The machines that are walked over.
    pub closed spec fn machines(&self) -> Seq<StateMachine<ID>> {
        self.linking.machines()
    }

    /// The index of the machine that comes next.
    pub closed spec fn position(&self) -> nat {
        self.count as nat
    }

    /// The walk has not gone past the last machine, and the logic is well
    /// formed.
    pub closed spec fn wf(&self) -> bool {
        self.linking.wf() && self.count <= self.linking.machines().len()
    }

    /// The next machine, or `None` after the last one.
    pub fn next(&mut self) -> (item: Option<(usize, &ID)>)
        requires
            old(self).wf(),
        ensures
            final(self).wf(),
            final(self).machines() == old(self).machines(),
            item.is_some() <==> old(self).position() < old(self).machines().len(),
            item.is_none() ==> final(self).position() == old(self).position(),
            item matches Some((idx, id)) ==> {
                &&& idx == old(self).position()
                &&& final(self).position() == idx + 1
                &&& *id == old(self).machines()[idx as int].graph.nodes@[old(self).machines()[idx as int].current_node as int]
            },
    {
        if self.count == self.linking.graphs.len() {
            None
        } else {
            self.count += 1;
            Some((self.count - 1, self.linking.state(self.count - 1)))
        }
    }
}

/// A walk over the events of a linking logic.
pub struct LinkingEventIter<'logic, ID: Copy + Eq + 'static> {
    linking: &'logic GraphedLinking<ID>,
    count: usize,
}

impl<'logic, ID: Copy + Eq + 'static> LinkingEventIter<'logic, ID> {
    /// A walk over the events of `linking`, from the first.
    pub fn new(linking: &'logic GraphedLinking<ID>) -> (iter: Self)
        ensures
            iter.wf(),
            iter.events() == linking.reported(),
            iter.position() == 0,
    {
        LinkingEventIter { linking, count: 0 }
    }

    /// The events that are walked over.
    pub closed spec fn events(&self) -> Seq<LinkingEvent> {
        self.linking.reported()
    }

    /// The index of the event that comes next.
    pub closed spec fn position(&self) -> nat {
        self.count as nat
    }

    /// The walk has not gone past the last event.
    pub closed spec fn wf(&self) -> bool {
        self.count <= self.linking.reported().len()
    }

    /// The next event, or `None` after the last one.
    pub fn next(&mut self) -> (item: Option<&LinkingEvent>)
        requires
            old(self).wf(),
        ensures
            final(self).wf(),
            final(self).events() == old(self).events(),
            match item {
                Some(event) => {
                    &&& old(self).position() < old(self).events().len()
                    &&& *event == old(self).events()[old(self).position() as int]
                    &&& final(self).position() == old(self).position() + 1
                },
                None => {
                    &&& old(self).position() == old(self).events().len()
                    &&& final(self).position() == old(self).position()
                },
            },
    {
        if self.count == self.linking.events.len() {
            None
        } else {
            self.count += 1;
            Some(&self.linking.events[self.count - 1])
        }
    }
}

} // verus!
