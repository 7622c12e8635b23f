use asterism::entity_state::{
    EntityEvent, EntityEventType, EntityReaction, FesEventIter, FlatEntityState,
};
use asterism::graph::{position, Graph, StateMachine};
use asterism::linking::{
    GraphedLinking, LinkingEvent, LinkingEventIter, LinkingEventType, LinkingReaction,
};
use asterism::{Event, Logic};

#[test]
fn graph_keeps_edges_in_the_order_added() {
    let mut graph: Graph<char> = Graph::new();
    graph.add_nodes(&['a', 'b', 'c']);
    graph.add_edge(0, 2);
    graph.add_edge(0, 1);
    graph.add_edge(2, 0);
    graph.add_nodes(&['d']);
    assert_eq!(graph.nodes, vec!['a', 'b', 'c', 'd']);
    assert_eq!(graph.get_edges(0), &[2, 1]);
    assert!(graph.get_edges(1).is_empty());
    assert_eq!(graph.get_edges(2), &[0]);
    assert!(graph.get_edges(3).is_empty());
}

#[test]
fn position_finds_the_first_match() {
    let ids = vec![4u8, 9, 4, 7];
    assert_eq!(position(&ids, &4), Some(0));
    assert_eq!(position(&ids, &7), Some(3));
    assert_eq!(position(&ids, &5), None);
    assert_eq!(position(&Vec::<u8>::new(), &5), None);
}

fn door() -> StateMachine<&'static str> {
    StateMachine::from_edges(
        0,
        [
            ("closed", &["opening"][..]),
            ("opening", &["open", "closed"][..]),
            ("open", &["closed"][..]),
        ],
    )
}

#[test]
fn machine_is_built_from_its_edge_table() {
    let machine = door();
    assert_eq!(machine.graph.nodes, vec!["closed", "opening", "open"]);
    assert_eq!(machine.graph.get_edges(0), &[1]);
    assert_eq!(machine.graph.get_edges(1), &[2, 0]);
    assert_eq!(machine.graph.get_edges(2), &[0]);
    assert_eq!(machine.conditions, vec![false, false, false]);
    assert_eq!(machine.current_node, 0);
    assert_eq!(machine.get_current_node(), "closed");
}

#[test]
fn edge_leads_to_the_first_node_of_that_name() {
    let machine: StateMachine<u8> =
        StateMachine::from_edges(1, [(5, &[6][..]), (6, &[5, 6][..]), (6, &[][..])]);
    assert_eq!(machine.graph.get_edges(0), &[1]);
    assert_eq!(machine.graph.get_edges(1), &[0, 1]);
    assert!(machine.graph.get_edges(2).is_empty());
}

#[test]
fn machine_moves_along_the_first_open_edge() {
    let mut machine = door();
    assert_eq!(machine.advance(), None);
    assert_eq!(machine.current_node, 0);
    machine.conditions[1] = true;
    assert_eq!(machine.open_nodes(), vec![1]);
    assert_eq!(machine.advance(), Some(1));
    assert_eq!(machine.get_current_node(), "opening");
    // both neighbours open: the edge that was added first wins
    machine.conditions[0] = true;
    machine.conditions[2] = true;
    assert_eq!(machine.open_nodes(), vec![0, 1, 2]);
    assert_eq!(machine.advance(), Some(2));
    assert_eq!(machine.advance(), Some(0));
    machine.set_current_node(2);
    assert_eq!(machine.get_current_node(), "open");
}

#[test]
fn empty_machine_has_no_nodes() {
    let mut machine: StateMachine<u8> = StateMachine::new();
    assert!(machine.graph.nodes.is_empty());
    assert!(machine.open_nodes().is_empty());
    machine.add_nodes(&[3, 4]);
    assert_eq!(machine.conditions, vec![false, false]);
    assert_eq!(machine.graph.nodes, vec![3, 4]);
    assert!(machine.graph.get_edges(1).is_empty());
}

fn entity_events(logic: &FlatEntityState<&'static str>) -> Vec<EntityEvent> {
    logic.events().to_vec()
}

#[test]
fn entity_state_reports_open_nodes_and_moves() {
    let mut logic: FlatEntityState<&'static str> = FlatEntityState::new();
    logic.add_graph(
        0,
        [("idle", &["run"][..]), ("run", &["idle", "jump"][..]), ("jump", &["idle"][..])],
    );
    logic.add_graph(1, [("off", &["on"][..]), ("on", &["off"][..])]);
    assert_eq!(logic.just_traversed, vec![false, false]);
    assert_eq!(logic.get_id_for_entity(0), "idle");
    assert_eq!(logic.get_id_for_entity(1), "on");

    logic.update();
    assert!(logic.events().is_empty());
    assert_eq!(logic.just_traversed, vec![false, false]);

    logic.handle_predicate(&EntityReaction::Activate(0, 1));
    logic.handle_predicate(&EntityReaction::Activate(0, 2));
    logic.handle_predicate(&EntityReaction::Activate(1, 0));
    logic.update();
    assert_eq!(
        entity_events(&logic),
        vec![
            EntityEvent { graph: 0, node: 1, event_type: EntityEventType::Activated },
            EntityEvent { graph: 0, node: 2, event_type: EntityEventType::Activated },
            EntityEvent { graph: 0, node: 1, event_type: EntityEventType::Traversed(0) },
            EntityEvent { graph: 1, node: 0, event_type: EntityEventType::Activated },
            EntityEvent { graph: 1, node: 0, event_type: EntityEventType::Traversed(1) },
        ]
    );
    assert_eq!(logic.just_traversed, vec![true, true]);
    assert_eq!(logic.get_id_for_entity(0), "run");
    assert_eq!(logic.get_id_for_entity(1), "off");

    // the events of a step replace those of the step before
    logic.update();
    assert_eq!(
        entity_events(&logic),
        vec![
            EntityEvent { graph: 0, node: 1, event_type: EntityEventType::Activated },
            EntityEvent { graph: 0, node: 2, event_type: EntityEventType::Activated },
            EntityEvent { graph: 0, node: 2, event_type: EntityEventType::Traversed(1) },
            EntityEvent { graph: 1, node: 0, event_type: EntityEventType::Activated },
        ]
    );
    assert_eq!(logic.just_traversed, vec![true, false]);
    assert_eq!(logic.get_id_for_entity(0), "jump");
    assert!(matches!(logic.events()[2].get_type(), EntityEventType::Traversed(1)));
}

#[test]
fn entity_state_reactions_and_accessors() {
    let mut logic: FlatEntityState<u8> = FlatEntityState::new();
    logic.add_graph(0, [(10, &[11][..]), (11, &[10][..])]);
    logic.add_graph(0, [(20, &[][..])]);
    logic.handle_predicate(&EntityReaction::Traverse(0, 1));
    assert_eq!(logic.just_traversed, vec![true, false]);
    assert_eq!(logic.get_id_for_entity(0), 11);
    *logic.get_ident_data(0) = 15;
    assert_eq!(logic.graphs[0].graph.nodes, vec![10, 15]);
    assert_eq!(logic.get_id_for_entity(0), 15);

    let mut seen = Vec::new();
    let mut iter = logic.data_iter();
    while let Some((idx, id)) = iter.next() {
        seen.push((idx, *id));
    }
    assert!(iter.next().is_none());
    assert_eq!(seen, vec![(0, 15), (1, 20)]);

    logic.handle_predicate(&EntityReaction::Activate(0, 0));
    logic.update();
    let mut events = FesEventIter::new(&logic);
    let mut count = 0;
    while let Some(event) = events.next() {
        assert_eq!(event.graph, 0);
        count += 1;
    }
    assert_eq!(count, 2);
    assert!(events.next().is_none());
}

fn linking_events(logic: &GraphedLinking<char>) -> Vec<LinkingEvent> {
    logic.events().to_vec()
}

#[test]
fn linking_follows_the_first_open_link_and_keeps_its_events() {
    let mut logic: GraphedLinking<char> = GraphedLinking::new();
    logic.add_graph(0, [('a', &['c', 'b'][..]), ('b', &['a'][..]), ('c', &[][..])]);
    logic.update();
    assert!(logic.events().is_empty());
    logic.handle_predicate(&LinkingReaction::Activate(0, 1));
    logic.update();
    let first = vec![
        LinkingEvent { graph: 0, node: 1, event_type: LinkingEventType::Activated },
        LinkingEvent { graph: 0, node: 1, event_type: LinkingEventType::Traversed(0) },
    ];
    assert_eq!(linking_events(&logic), first);
    assert_eq!(logic.just_traversed, vec![true]);
    assert_eq!(logic.graphs[0].get_current_node(), 'b');

    logic.update();
    let mut both = first.clone();
    both.push(LinkingEvent { graph: 0, node: 1, event_type: LinkingEventType::Activated });
    assert_eq!(linking_events(&logic), both);
    assert_eq!(logic.just_traversed, vec![false]);
    assert!(matches!(logic.events()[1].get_type(), LinkingEventType::Traversed(0)));
}

#[test]
fn linking_reactions_and_walks() {
    let mut logic: GraphedLinking<char> = GraphedLinking::new();
    logic.add_graph(0, [('a', &['b'][..]), ('b', &['a'][..])]);
    logic.add_graph(1, [('x', &['y'][..]), ('y', &[][..])]);
    logic.handle_predicate(&LinkingReaction::Traverse(0, 1));
    assert_eq!(logic.just_traversed, vec![true, false]);
    *logic.get_ident_data(1) = 'z';
    let mut seen = Vec::new();
    let mut iter = logic.data_iter();
    while let Some((idx, id)) = iter.next() {
        seen.push((idx, *id));
    }
    assert_eq!(seen, vec![(0, 'b'), (1, 'z')]);
    logic.handle_predicate(&LinkingReaction::Activate(1, 0));
    logic.update();
    let mut events = LinkingEventIter::new(&logic);
    let first = events.next().unwrap();
    assert_eq!(
        *first,
        LinkingEvent { graph: 1, node: 0, event_type: LinkingEventType::Activated }
    );
    assert!(events.next().is_none());
}
