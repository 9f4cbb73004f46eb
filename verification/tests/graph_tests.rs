use mist::graph::level_nodes;

#[test]
fn level_is_the_longest_path() {
    let adj = vec![
        vec![false, true, true, false],
        vec![false, false, true, false],
        vec![false, false, false, false],
        vec![false, false, false, false],
    ];
    assert_eq!(level_nodes(&adj), Ok(vec![2, 1, 0, 0]));
}

#[test]
fn empty_graph_has_no_levels() {
    assert_eq!(level_nodes(&vec![]), Ok(vec![]));
}

#[test]
fn loop_at_one_node_is_a_cycle() {
    let adj = vec![vec![true]];
    assert_eq!(level_nodes(&adj), Err(vec![0]));
}

#[test]
fn cycle_is_walked_in_edge_order() {
    let adj = vec![
        vec![false, true, false, false],
        vec![false, false, true, false],
        vec![true, false, false, false],
        vec![false, false, false, false],
    ];
    let cycle = level_nodes(&adj).unwrap_err();
    assert_eq!(cycle.len(), 3);
    for t in 0..3 {
        assert!(adj[cycle[t]][cycle[(t + 1) % 3]]);
    }
}
