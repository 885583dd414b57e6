use cel_pipeline::error::RenderError;
use cel_pipeline::graph::RenderGraph;

fn position(order: &[usize], node: usize) -> usize {
    order.iter().position(|&v| v == node).expect("node is scheduled")
}

fn assert_is_schedule(graph: &RenderGraph<u32>, order: &[usize]) {
    let n = graph.node_count();
    assert_eq!(order.len(), n);
    for v in 0..n {
        assert_eq!(order.iter().filter(|&&x| x == v).count(), 1);
    }
    for a in 0..n {
        for b in 0..n {
            if graph.has_edge(a, b) {
                assert!(position(order, a) < position(order, b));
            }
        }
    }
}

#[test]
fn new_graph_is_empty() {
    let graph: RenderGraph<u32> = RenderGraph::new();
    assert_eq!(graph.node_count(), 0);
    assert_eq!(graph.execution_order(), Vec::<usize>::new());
    assert_eq!(graph.node_id("main_pass"), None);
}

#[test]
fn add_node_hands_out_consecutive_indices() {
    let mut graph: RenderGraph<u32> = RenderGraph::new();
    assert_eq!(graph.add_node("main_pass", 7), Ok(0));
    assert_eq!(graph.add_node("my_material", 8), Ok(1));
    assert_eq!(graph.add_node("lights", 9), Ok(2));
    assert_eq!(graph.node_count(), 3);
    assert_eq!(graph.node_id("lights"), Some(2));
    assert_eq!(graph.node_id("my_material"), Some(1));
    assert_eq!(graph.node(1), Some(&8));
    assert_eq!(graph.node(3), None);
}

#[test]
fn add_node_rejects_a_taken_name() {
    let mut graph: RenderGraph<u32> = RenderGraph::new();
    assert_eq!(graph.add_node("lights", 1), Ok(0));
    assert_eq!(graph.add_node("lights", 2), Err(RenderError::DuplicateNode));
    assert_eq!(graph.node_count(), 1);
    assert_eq!(graph.node(0), Some(&1));
}

#[test]
fn add_edge_rejects_unknown_endpoints() {
    let mut graph: RenderGraph<u32> = RenderGraph::new();
    graph.add_node("main_pass", 0).unwrap();
    assert_eq!(graph.add_edge("lights", "main_pass"), Err(RenderError::UnknownNode));
    assert_eq!(graph.add_edge("main_pass", "lights"), Err(RenderError::UnknownNode));
    assert_eq!(graph.add_edge("a", "b"), Err(RenderError::UnknownNode));
    assert!(!graph.has_edge(0, 0));
}

#[test]
fn add_edge_rejects_a_self_loop() {
    let mut graph: RenderGraph<u32> = RenderGraph::new();
    graph.add_node("main_pass", 0).unwrap();
    assert_eq!(graph.add_edge("main_pass", "main_pass"), Err(RenderError::CycleDetected));
    assert!(!graph.has_edge(0, 0));
}

#[test]
fn add_edge_rejects_the_edge_that_closes_a_cycle() {
    let mut graph: RenderGraph<u32> = RenderGraph::new();
    graph.add_node("a", 0).unwrap();
    graph.add_node("b", 0).unwrap();
    graph.add_node("c", 0).unwrap();
    graph.add_node("d", 0).unwrap();
    assert_eq!(graph.add_edge("a", "b"), Ok(()));
    assert_eq!(graph.add_edge("b", "c"), Ok(()));
    assert_eq!(graph.add_edge("c", "d"), Ok(()));
    assert_eq!(graph.add_edge("b", "a"), Err(RenderError::CycleDetected));
    assert_eq!(graph.add_edge("d", "a"), Err(RenderError::CycleDetected));
    assert_eq!(graph.add_edge("d", "b"), Err(RenderError::CycleDetected));
    // the graph is as it was before the rejected calls
    assert!(!graph.has_edge(1, 0));
    assert!(!graph.has_edge(3, 0));
    assert!(!graph.has_edge(3, 1));
    assert!(graph.has_edge(0, 1) && graph.has_edge(1, 2) && graph.has_edge(2, 3));
    assert_eq!(graph.execution_order(), vec![0, 1, 2, 3]);
    // an edge that only shortcuts the chain is fine
    assert_eq!(graph.add_edge("a", "d"), Ok(()));
    assert_eq!(graph.execution_order(), vec![0, 1, 2, 3]);
}

#[test]
fn declaring_an_edge_twice_changes_nothing() {
    let mut graph: RenderGraph<u32> = RenderGraph::new();
    graph.add_node("lights", 0).unwrap();
    graph.add_node("main_pass", 0).unwrap();
    assert_eq!(graph.add_edge("lights", "main_pass"), Ok(()));
    assert_eq!(graph.add_edge("lights", "main_pass"), Ok(()));
    assert!(graph.has_edge(0, 1));
    assert_eq!(graph.execution_order(), vec![0, 1]);
}

#[test]
fn nodes_wired_before_the_main_pass_run_before_it() {
    let mut graph: RenderGraph<u32> = RenderGraph::new();
    let main = graph.add_node("main_pass", 0).unwrap();
    let material = graph.add_node("my_material", 1).unwrap();
    let lights = graph.add_node("lights", 2).unwrap();
    graph.add_edge("my_material", "main_pass").unwrap();
    graph.add_edge("lights", "main_pass").unwrap();
    let order = graph.execution_order();
    assert_is_schedule(&graph, &order);
    assert!(position(&order, material) < position(&order, main));
    assert!(position(&order, lights) < position(&order, main));
    assert_eq!(order, vec![1, 2, 0]);
}

#[test]
fn execution_order_honours_every_edge_of_a_diamond() {
    let mut graph: RenderGraph<u32> = RenderGraph::new();
    for name in ["sink", "left", "right", "source", "aside"] {
        graph.add_node(name, 0).unwrap();
    }
    graph.add_edge("left", "sink").unwrap();
    graph.add_edge("right", "sink").unwrap();
    graph.add_edge("source", "left").unwrap();
    graph.add_edge("source", "right").unwrap();
    let order = graph.execution_order();
    assert_is_schedule(&graph, &order);
    assert_eq!(order, vec![3, 1, 2, 0, 4]);
    assert_eq!(graph.add_edge("sink", "source"), Err(RenderError::CycleDetected));
    assert_eq!(graph.execution_order(), vec![3, 1, 2, 0, 4]);
}

#[test]
fn reachable_from_marks_the_start_and_all_it_leads_to() {
    let mut graph: RenderGraph<u32> = RenderGraph::new();
    for name in ["a", "b", "c", "d"] {
        graph.add_node(name, 0).unwrap();
    }
    graph.add_edge("a", "b").unwrap();
    graph.add_edge("b", "c").unwrap();
    assert_eq!(graph.reachable_from(0), vec![true, true, true, false]);
    assert_eq!(graph.reachable_from(1), vec![false, true, true, false]);
    assert_eq!(graph.reachable_from(3), vec![false, false, false, true]);
}

#[test]
fn swap_node_exchanges_the_payload() {
    let mut graph: RenderGraph<u32> = RenderGraph::new();
    graph.add_node("a", 10).unwrap();
    let mut held = 20;
    assert!(graph.swap_node(0, &mut held));
    assert_eq!(held, 10);
    assert_eq!(graph.node(0), Some(&20));
    assert!(!graph.swap_node(5, &mut held));
    assert_eq!(held, 10);
    assert_eq!(graph.node_id("a"), Some(0));
}

#[test]
fn long_chain_declared_backwards_is_scheduled_forwards() {
    let mut graph: RenderGraph<u32> = RenderGraph::new();
    let names: Vec<String> = (0..12).map(|i| format!("n{}", i)).collect();
    for name in &names {
        graph.add_node(name, 0).unwrap();
    }
    // n11 -> n10 -> ... -> n0
    for i in 0..11 {
        graph.add_edge(&names[i + 1], &names[i]).unwrap();
    }
    let order = graph.execution_order();
    assert_is_schedule(&graph, &order);
    assert_eq!(order, (0..12).rev().collect::<Vec<usize>>());
    assert_eq!(graph.add_edge("n0", "n11"), Err(RenderError::CycleDetected));
}

#[test]
fn names_and_edges_can_be_read_back() {
    let mut graph: RenderGraph<u32> = RenderGraph::new();
    graph.add_node("main_pass", 0).unwrap();
    graph.add_node("my_material", 0).unwrap();
    graph.add_node("lights", 0).unwrap();
    graph.add_edge("my_material", "main_pass").unwrap();
    graph.add_edge("lights", "main_pass").unwrap();
    graph.add_edge("lights", "main_pass").unwrap();
    assert_eq!(graph.add_edge("main_pass", "lights"), Err(RenderError::CycleDetected));
    assert_eq!(graph.node_name(0), Some(&"main_pass".to_string()));
    assert_eq!(graph.node_name(2), Some(&"lights".to_string()));
    assert_eq!(graph.node_name(3), None);
    let mut edges = graph.edges();
    edges.sort();
    assert_eq!(edges, vec![(1, 0), (2, 0)]);
}

#[test]
fn names_differing_in_one_character_are_different_nodes() {
    let mut graph: RenderGraph<u32> = RenderGraph::new();
    assert_eq!(graph.add_node("lights", 0), Ok(0));
    assert_eq!(graph.add_node("Lights", 0), Ok(1));
    assert_eq!(graph.add_node("lights ", 0), Ok(2));
    assert_eq!(graph.add_node("", 0), Ok(3));
    assert_eq!(graph.add_node("", 0), Err(RenderError::DuplicateNode));
    assert_eq!(graph.node_id("Lights"), Some(1));
    assert_eq!(graph.node_id(""), Some(3));
}
