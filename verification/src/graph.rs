//! Directed graphs, and state machines that walk them.

use vstd::prelude::*;
use vstd::std_specs::cmp::PartialEqSpec;

verus! {

/// A directed graph. Node `n` is `nodes[n]`; the nodes that it has an edge to
/// are `edges[n]`, in the order in which the edges were added.
pub struct Graph<ID: Copy + Eq> {
    /// What each node stands for.
    pub nodes: Vec<ID>,
    /// The targets of the edges that leave each node.
    pub edges: Vec<Vec<usize>>,
}

impl<ID: Copy + Eq> Graph<ID> {
    /// The number of nodes.
    pub open spec fn len(&self) -> nat {
        self.nodes@.len()
    }

    /// The targets of the edges that leave node `n`, in order.
    pub open spec fn targets(&self, n: int) -> Seq<usize> {
        self.edges@[n]@
    }

    /// Every node has its list of edges, and every edge leads to a node.
    pub open spec fn wf(&self) -> bool {
        &&& self.edges@.len() == self.nodes@.len()
        &&& forall|n: int, k: int|
            0 <= n < self.edges@.len() && 0 <= k < self.edges@[n]@.len() ==> (
            #[trigger] self.edges@[n]@[k]) < self.nodes@.len()
    }

    /// A graph without nodes.
    pub fn new() -> (graph: Self)
        ensures
            graph.wf(),
            graph.len() == 0,
    {
        Self { nodes: Vec::new(), edges: Vec::new() }
    }

    /// Adds a node for each of `ids`, in order and without edges.
    pub fn add_nodes(&mut self, ids: &[ID])
        requires
            old(self).wf(),
        ensures
            final(self).wf(),
            final(self).nodes@ == old(self).nodes@ + ids@,
            final(self).len() == old(self).len() + ids@.len(),
            forall|n: int| 0 <= n < old(self).len() ==> final(self).edges@[n] == old(self).edges@[n],
            forall|n: int|
                old(self).len() <= n < final(self).len() ==> (#[trigger] final(self).targets(n))
                    == Seq::<usize>::empty(),
    {
        let mut k: usize = 0;
        while k < ids.len()
            invariant
                k <= ids@.len(),
                old(self).wf(),
                self.wf(),
                self.nodes@ == old(self).nodes@ + ids@.take(k as int),
                forall|n: int|
                    0 <= n < old(self).len() ==> self.edges@[n] == old(self).edges@[n],
                forall|n: int|
                    old(self).len() <= n < self.len() ==> (#[trigger] self.targets(n))
                        == Seq::<usize>::empty(),
            decreases ids@.len() - k,
        {
            let ghost before = *self;
            self.nodes.push(ids[k]);
            self.edges.push(Vec::new());
            k += 1;
            assert(self.nodes@ =~= old(self).nodes@ + ids@.take(k as int));
            assert forall|n: int| old(self).len() <= n < self.len() implies (
            #[trigger] self.targets(n)) == Seq::<usize>::empty() by {
                if n < before.len() {
                    assert(self.targets(n) == before.targets(n));
                }
            }
        }
        assert(ids@.take(ids@.len() as int) =~= ids@);
    }

    /// Adds an edge from node `from` to node `to`, behind the edges that
    /// already leave `from`.
    pub fn add_edge(&mut self, from: usize, to: usize)
        requires
            old(self).wf(),
            from < old(self).len(),
            to < old(self).len(),
        ensures
            final(self).wf(),
            final(self).nodes@ == old(self).nodes@,
            final(self).edges@.len() == old(self).edges@.len(),
            final(self).targets(from as int) == old(self).targets(from as int).push(to),
            forall|n: int|
                0 <= n < old(self).len() && n != from ==> final(self).edges@[n] == old(
                    self,
                ).edges@[n],
    {
        let list = &mut self.edges[from];
        list.push(to);
    }

    /// The targets of the edges that leave `node`, in order.
    pub fn get_edges(&self, node: usize) -> (targets: &[usize])
        requires
            self.wf(),
            node < self.len(),
        ensures
            targets@ == self.targets(node as int),
    {
        self.edges[node].as_slice()
    }
}

/// Values of `ID` can be told apart: `==` on them is defined, and holds of two
/// values exactly when they are the same.
pub open spec fn tells_apart<ID: PartialEq>() -> bool {
    &&& ID::obeys_eq_spec()
    &&& forall|a: ID, b: ID| (#[trigger] a.eq_spec(&b)) <==> (a == b)
}

/// The first position in `ids`, from `from` on, that holds `id`; the length
/// of `ids` where none does.
pub open spec fn first_index<ID>(ids: Seq<ID>, id: ID, from: int) -> int
    decreases ids.len() - from,
{
    if from < 0 || from >= ids.len() {
        ids.len() as int
    } else if ids[from] == id {
        from
    } else {
        first_index(ids, id, from + 1)
    }
}

/// The first position in `ids` that holds `id`, or `None`.
pub fn position<ID: Copy + Eq>(ids: &Vec<ID>, id: &ID) -> (at: Option<usize>)
    requires
        tells_apart::<ID>(),
    ensures
        match at {
            Some(k) => k < ids@.len() && k == first_index(ids@, *id, 0) && ids@[k as int] == *id,
            None => first_index(ids@, *id, 0) == ids@.len() && !ids@.contains(*id),
        },
{
    let mut k: usize = 0;
    while k < ids.len()
        invariant
            k <= ids@.len(),
            tells_apart::<ID>(),
            first_index(ids@, *id, 0) == first_index(ids@, *id, k as int),
            forall|m: int| 0 <= m < k ==> ids@[m] != *id,
        decreases ids@.len() - k,
    {
        if ids[k] == *id {
            return Some(k);
        }
        k += 1;
    }
    None
}

/// A graph with a place in it, and a condition for each node that says
/// whether the machine may move there.
pub struct StateMachine<ID: Copy + Eq> {
    pub graph: Graph<ID>,
    /// The node at which the machine stands.
    pub current_node: usize,
    /// For each node, whether it is open: whether an edge that leads to it may
    /// be taken.
    pub conditions: Vec<bool>,
}

/// The open nodes among the first `n`, in rising order.
pub open spec fn open_nodes(conditions: Seq<bool>, n: int) -> Seq<usize>
    decreases n,
{
    if n <= 0 {
        Seq::empty()
    } else if conditions[n - 1] {
        open_nodes(conditions, n - 1).push((n - 1) as usize)
    } else {
        open_nodes(conditions, n - 1)
    }
}

/// The first of `targets`, from position `from` on, that is open.
pub open spec fn first_open(targets: Seq<usize>, conditions: Seq<bool>, from: int) -> Option<usize>
    decreases targets.len() - from,
{
    if from < 0 || from >= targets.len() {
        None
    } else if conditions[targets[from] as int] {
        Some(targets[from])
    } else {
        first_open(targets, conditions, from + 1)
    }
}

/// `machine` is the one that `edges` describes: entry `n` of `edges` gives
/// what node `n` stands for and what the nodes stand for that it has an edge
/// to; every node is closed, and the machine stands at `starting_pos`. An edge
/// leads to the first node that stands for its target.
pub open spec fn describes<ID: Copy + Eq>(
    edges: Seq<(ID, &[ID])>,
    starting_pos: usize,
    machine: StateMachine<ID>,
) -> bool {
    let ids = Seq::new(edges.len(), |n: int| edges[n].0);
    &&& machine.graph.nodes@ == ids
    &&& machine.current_node == starting_pos
    &&& machine.conditions@ == Seq::new(edges.len(), |n: int| false)
    &&& machine.graph.edges@.len() == edges.len()
    &&& forall|n: int|
        0 <= n < edges.len() ==> #[trigger] machine.graph.targets(n) == Seq::new(
            edges[n].1@.len(),
            |k: int| first_index(ids, edges[n].1@[k], 0) as usize,
        )
}

/// Every target that `edges` names is among its nodes.
pub open spec fn targets_exist<ID: Copy + Eq>(edges: Seq<(ID, &[ID])>) -> bool {
    forall|n: int, k: int|
        0 <= n < edges.len() && 0 <= k < edges[n].1@.len() ==> exists|m: int|
            0 <= m < edges.len() && edges[m].0 == #[trigger] edges[n].1@[k]
}

impl<ID: Copy + Eq> StateMachine<ID> {
    /// Builds a machine from a list of nodes, each with the nodes that it has an
    /// edge to. Every node is closed. The machine stands at `starting_pos`.
    pub fn from_edges<const NUM_NODES: usize>(
        starting_pos: usize,
        edges: [(ID, &[ID]); NUM_NODES],
    ) -> (machine: Self)
        requires
            tells_apart::<ID>(),
            starting_pos < NUM_NODES,
            targets_exist(edges@),
        ensures
            machine.placed(),
            describes(edges@, starting_pos, machine),
    {
        let mut ids: Vec<ID> = Vec::new();
        let mut n: usize = 0;
        while n < NUM_NODES
            invariant
                n <= NUM_NODES,
                edges@.len() == NUM_NODES,
                ids@ == Seq::new(n as nat, |m: int| edges@[m].0),
            decreases NUM_NODES - n,
        {
            ids.push(edges[n].0);
            n += 1;
            assert(ids@ =~= Seq::new(n as nat, |m: int| edges@[m].0));
        }
        let mut machine = StateMachine::new();
        machine.add_nodes(ids.as_slice());
        machine.current_node = starting_pos;
        assert(machine.graph.nodes@ =~= ids@);
        assert(machine.conditions@ =~= Seq::new(edges@.len(), |n: int| false));
        let mut from: usize = 0;
        while from < NUM_NODES
            invariant
                from <= NUM_NODES,
                edges@.len() == NUM_NODES,
                tells_apart::<ID>(),
                targets_exist(edges@),
                ids@ == Seq::new(NUM_NODES as nat, |m: int| edges@[m].0),
                machine.wf(),
                machine.graph.nodes@ == ids@,
                machine.current_node == starting_pos,
                machine.conditions@ == Seq::new(edges@.len(), |n: int| false),
                forall|n: int|
                    0 <= n < from ==> #[trigger] machine.graph.targets(n) == Seq::new(
                        edges@[n].1@.len(),
                        |k: int| first_index(ids@, edges@[n].1@[k], 0) as usize,
                    ),
                forall|n: int|
                    from <= n < NUM_NODES ==> #[trigger] machine.graph.targets(n) == Seq::<
                        usize,
                    >::empty(),
            decreases NUM_NODES - from,
        {
            let node_edges: &[ID] = edges[from].1;
            let mut k: usize = 0;
            while k < node_edges.len()
                invariant
                    k <= node_edges@.len(),
                    from < NUM_NODES,
                    edges@.len() == NUM_NODES,
                    node_edges@ == edges@[from as int].1@,
                    tells_apart::<ID>(),
                    targets_exist(edges@),
                    ids@ == Seq::new(NUM_NODES as nat, |m: int| edges@[m].0),
                    machine.wf(),
                    machine.graph.nodes@ == ids@,
                    machine.current_node == starting_pos,
                    machine.conditions@ == Seq::new(edges@.len(), |n: int| false),
                    forall|n: int|
                        0 <= n < from ==> #[trigger] machine.graph.targets(n) == Seq::new(
                            edges@[n].1@.len(),
                            |k: int| first_index(ids@, edges@[n].1@[k], 0) as usize,
                        ),
                    forall|n: int|
                        from < n < NUM_NODES ==> #[trigger] machine.graph.targets(n) == Seq::<
                            usize,
                        >::empty(),
                    machine.graph.targets(from as int) == Seq::new(
                        k as nat,
                        |k: int| first_index(ids@, node_edges@[k], 0) as usize,
                    ),
                decreases node_edges@.len() - k,
            {
                let ghost before = machine;
                proof {
                    let m = choose|m: int|
                        0 <= m < edges@.len() && edges@[m].0 == edges@[from as int].1@[k as int];
                    assert(ids@[m] == node_edges@[k as int]);
                }
                match position(&ids, &node_edges[k]) {
                    Some(to) => {
                        machine.graph.add_edge(from, to);
                    },
                    None => {
                        assert(false);
                    },
                }
                k += 1;
                assert(machine.graph.targets(from as int) =~= Seq::new(
                    k as nat,
                    |k: int| first_index(ids@, node_edges@[k], 0) as usize,
                ));
                assert forall|n: int| 0 <= n < NUM_NODES && n != from implies
                    #[trigger] machine.graph.targets(n) == before.graph.targets(n) by {
                }
            }
            from += 1;
        }
        machine
    }

    /// The graph is well formed and every node has its condition.
    pub open spec fn wf(&self) -> bool {
        self.graph.wf() && self.conditions@.len() == self.graph.len()
    }

    /// The machine is well formed and stands at a node.
    pub open spec fn placed(&self) -> bool {
        self.wf() && self.current_node < self.graph.len()
    }

    /// Where the machine goes in its next step: to the first open node among
    /// those that its node has an edge to, if there is one.
    pub open spec fn next_node(&self) -> Option<usize> {
        first_open(self.graph.targets(self.current_node as int), self.conditions@, 0)
    }

    /// A machine without nodes.
    pub fn new() -> (machine: Self)
        ensures
            machine.wf(),
            machine.graph.len() == 0,
            machine.current_node == 0,
    {
        Self { graph: Graph::new(), current_node: 0, conditions: Vec::new() }
    }

    /// Adds a node for each of `ids`, closed and without edges.
    pub fn add_nodes(&mut self, ids: &[ID])
        requires
            old(self).wf(),
        ensures
            final(self).wf(),
            final(self).current_node == old(self).current_node,
            final(self).graph.nodes@ == old(self).graph.nodes@ + ids@,
            final(self).conditions@ == old(self).conditions@ + Seq::new(ids@.len(), |k: int| false),
            forall|n: int|
                0 <= n < old(self).graph.len() ==> final(self).graph.edges@[n] == old(
                    self,
                ).graph.edges@[n],
            forall|n: int|
                old(self).graph.len() <= n < final(self).graph.len() ==> (
                #[trigger] final(self).graph.targets(n)) == Seq::<usize>::empty(),
    {
        self.graph.add_nodes(ids);
        let ghost graph = self.graph;
        let mut k: usize = 0;
        while k < ids.len()
            invariant
                k <= ids@.len(),
                self.graph == graph,
                self.current_node == old(self).current_node,
                self.conditions@ == old(self).conditions@ + Seq::new(k as nat, |k: int| false),
            decreases ids@.len() - k,
        {
            self.conditions.push(false);
            k += 1;
            assert(self.conditions@ =~= old(self).conditions@ + Seq::new(k as nat, |k: int| false));
        }
    }

    /// What the node at which the machine stands, stands for.
    pub fn get_current_node(&self) -> (id: ID)
        requires
            self.placed(),
        ensures
            id == self.graph.nodes@[self.current_node as int],
    {
        self.graph.nodes[self.current_node]
    }

    /// Puts the machine at `node`.
    pub fn set_current_node(&mut self, node: usize)
        requires
            old(self).wf(),
            node < old(self).graph.len(),
        ensures
            final(self).placed(),
            final(self).current_node == node,
            final(self).graph == old(self).graph,
            final(self).conditions == old(self).conditions,
    {
        self.current_node = node;
    }

    /// The open nodes, in rising order.
    pub fn open_nodes(&self) -> (open: Vec<usize>)
        requires
            self.wf(),
        ensures
            open@ == open_nodes(self.conditions@, self.conditions@.len() as int),
    {
        let mut open: Vec<usize> = Vec::new();
        let mut node: usize = 0;
        while node < self.conditions.len()
            invariant
                node <= self.conditions@.len(),
                open@ == open_nodes(self.conditions@, node as int),
            decreases self.conditions@.len() - node,
        {
            if self.conditions[node] {
                open.push(node);
            }
            node += 1;
        }
        open
    }

    /// Takes a step: moves the machine along the first edge that leads to an
    /// open node, and returns that node, or leaves it where it is and returns
    /// `None`.
    pub fn advance(&mut self) -> (moved_to: Option<usize>)
        requires
            old(self).placed(),
        ensures
            final(self).placed(),
            moved_to == old(self).next_node(),
            final(self).graph == old(self).graph,
            final(self).conditions == old(self).conditions,
            final(self).current_node == match moved_to {
                Some(node) => node,
                None => old(self).current_node,
            },
    {
        let targets = self.graph.get_edges(self.current_node);
        let mut k: usize = 0;
        let mut found: Option<usize> = None;
        while k < targets.len()
            invariant_except_break
                found.is_none(),
                first_open(targets@, self.conditions@, k as int) == self.next_node(),
            invariant
                k <= targets@.len(),
                self.placed(),
                targets@ == self.graph.targets(self.current_node as int),
            ensures
                found == self.next_node(),
                found matches Some(node) ==> node < self.graph.len(),
            decreases targets@.len() - k,
        {
            let edge: usize = targets[k];
            if self.conditions[edge] {
                found = Some(edge);
                break ;
            }
            k += 1;
        }
        if let Some(node) = found {
            self.current_node = node;
        }
        found
    }
}

} // verus!
