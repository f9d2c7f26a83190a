use genome_core::editor::{
    handle_link_created, handle_link_destroyed, handle_link_make_self_referential, input_pin_id,
    output_pin_id, pin_is_child_a, pin_node, refresh_node_graph,
};
use genome_core::genome_data::{CurrentGenome, GenomeData, ModeSettings};
use genome_core::node_graph::GenomeNodeGraph;
use genome_core::sync::rebuild_node_graph;

fn genome(spec: &[(&str, i32, i32)]) -> GenomeData<()> {
    let modes = spec
        .iter()
        .map(|(name, a, b)| {
            let mut m = ModeSettings::new_self_splitting(0, name.to_string(), ());
            m.child_a_mode = *a;
            m.child_b_mode = *b;
            m
        })
        .collect();
    GenomeData { name: "g".to_string(), initial_mode: 0, modes }
}

fn sorted_links(g: &GenomeNodeGraph) -> Vec<(i32, i32, bool)> {
    let mut l = g.links.clone();
    l.sort();
    l
}

fn positions_by_mode(g: &GenomeNodeGraph, n: usize) -> Vec<Option<(i64, i64)>> {
    (0..n)
        .map(|m| g.get_node_for_mode(m).and_then(|id| g.get_node_position(id)))
        .collect()
}

#[test]
fn second_child_a_link_replaces_the_first() {
    let mut g = GenomeNodeGraph::new();
    g.add_link(3, 1, true);
    g.add_link(3, 4, false);
    g.add_link(3, 2, true);
    let child_a: Vec<_> = g.links.iter().filter(|l| l.0 == 3 && l.2).collect();
    assert_eq!(child_a, vec![&(3, 2, true)]);
    assert_eq!(g.links.len(), 2);
    assert!(g.links.contains(&(3, 4, false)));
}

#[test]
fn create_and_remove_nodes() {
    let mut g = GenomeNodeGraph::new();
    assert_eq!(g.create_node(5), 0);
    assert_eq!(g.create_node(7), 1);
    assert_eq!(g.next_node_id, 2);
    assert_eq!(g.get_node_for_mode(7), Some(1));
    assert_eq!(g.get_mode_for_node(0), Some(5));
    g.add_link(0, 1, true);
    g.add_link(1, 1, false);
    g.add_link(1, 0, true);
    g.remove_node(1);
    assert_eq!(g.get_mode_for_node(1), None);
    assert_eq!(g.get_node_for_mode(7), None);
    assert!(g.links.is_empty());
    assert_eq!(g.get_node_for_mode(5), Some(0));
}

#[test]
fn clear_resets_everything_but_flags() {
    let mut g = GenomeNodeGraph::new();
    g.create_node(0);
    g.set_node_position(0, 1, 2);
    g.add_link(0, 0, true);
    g.mark_for_rebuild();
    g.pending_position = Some((0, 3, 4));
    g.clear();
    assert_eq!(g.next_node_id, 0);
    assert!(g.links.is_empty());
    assert_eq!(g.get_node_position(0), None);
    assert_eq!(g.get_node_for_mode(0), None);
    assert!(g.node_to_name.is_empty());
    assert!(g.needs_rebuild && g.needs_layout);
    assert_eq!(g.pending_position, Some((0, 3, 4)));
}

#[test]
fn new_graph_defaults() {
    let g = GenomeNodeGraph::new();
    assert_eq!(g.next_node_id, 0);
    assert_eq!(g.next_link_id, 0);
    assert!(!g.needs_rebuild);
    assert!(g.needs_layout);
    assert_eq!(g.pending_position, None);
}

#[test]
fn grid_layout_orders_by_mode_index() {
    let mut g = GenomeNodeGraph::new();
    for m in [4usize, 0, 3, 1, 2] {
        g.create_node(m);
    }
    g.set_node_position(99, 7, 7);
    g.calculate_grid_layout();
    assert!(!g.needs_layout);
    let pos = |m: usize| g.get_node_position(g.get_node_for_mode(m).unwrap()).unwrap();
    assert_eq!(pos(0), (50, 50));
    assert_eq!(pos(1), (300, 50));
    assert_eq!(pos(2), (550, 50));
    assert_eq!(pos(3), (800, 50));
    assert_eq!(pos(4), (50, 250));
    assert_eq!(g.get_node_position(99), Some((7, 7)));
}

#[test]
fn rebuild_derives_nodes_and_links() {
    let genome = genome(&[("Mode 0", 1, 0), ("Mode 1", 2, 0), ("Mode 2", 2, 2)]);
    let mut g = GenomeNodeGraph::new();
    rebuild_node_graph(&genome, &mut g);
    assert_eq!(g.next_node_id, 3);
    for m in 0..3 {
        assert_eq!(g.get_node_for_mode(m), Some(m as i32));
        assert_eq!(g.node_to_name.get(&(m as i32)).unwrap(), &genome.modes[m].name);
    }
    assert_eq!(sorted_links(&g), vec![(0, 1, true), (1, 0, false), (1, 2, true)]);
    assert!(!g.needs_layout && !g.needs_rebuild);
}

#[test]
fn rebuild_lays_out_when_nothing_is_recovered() {
    let genome = genome(&[("Mode 0", 0, 0), ("Mode 1", 1, 1), ("Mode 2", 2, 2), ("Mode 3", 3, 3), ("Mode 4", 4, 4)]);
    let mut g = GenomeNodeGraph::new();
    g.mark_for_rebuild();
    rebuild_node_graph(&genome, &mut g);
    assert!(!g.needs_layout && !g.needs_rebuild);
    assert_eq!(
        positions_by_mode(&g, 5),
        vec![Some((50, 50)), Some((300, 50)), Some((550, 50)), Some((800, 50)), Some((50, 250))]
    );
    let mut g = GenomeNodeGraph::new();
    g.needs_layout = false;
    rebuild_node_graph(&genome, &mut g);
    assert_eq!(positions_by_mode(&g, 5), vec![None; 5]);
}

#[test]
fn position_survives_insert_at_front() {
    let mut genome = genome(&[("Mode 0", 0, 0), ("Mode 1", 1, 1), ("Mode 2", 2, 2)]);
    let mut g = GenomeNodeGraph::new();
    rebuild_node_graph(&genome, &mut g);
    g.calculate_grid_layout();
    let node = g.get_node_for_mode(2).unwrap();
    g.set_node_position(node, 100, 50);
    genome.insert_mode(0, ModeSettings::new_self_splitting(0, "Mode 9".to_string(), ()));
    assert_eq!(genome.modes[3].name, "Mode 2");
    g.mark_for_rebuild();
    rebuild_node_graph(&genome, &mut g);
    let node = g.get_node_for_mode(3).unwrap();
    assert_eq!(g.get_node_position(node), Some((100, 50)));
    assert_eq!(g.get_node_position(g.get_node_for_mode(0).unwrap()), None);
    assert!(!g.needs_layout);
}

#[test]
fn rebuilding_twice_changes_nothing() {
    let genome = genome(&[("Mode 0", 1, 2), ("Mode 1", 0, 1), ("Mode 2", 1, 0), ("Mode 3", 3, 3)]);
    let mut g = GenomeNodeGraph::new();
    rebuild_node_graph(&genome, &mut g);
    g.calculate_grid_layout();
    g.set_node_position(1, -5, 12);
    g.node_positions.remove(&3);
    g.pending_position = Some((2, 8, 9));
    let mut once = GenomeNodeGraph::new();
    once.node_to_name = g.node_to_name.clone();
    once.node_positions = g.node_positions.clone();
    once.next_node_id = g.next_node_id;
    once.pending_position = g.pending_position;
    rebuild_node_graph(&genome, &mut once);
    let links_once = sorted_links(&once);
    let pos_once = positions_by_mode(&once, 4);
    rebuild_node_graph(&genome, &mut once);
    assert_eq!(sorted_links(&once), links_once);
    assert_eq!(positions_by_mode(&once, 4), pos_once);
    assert_eq!(pos_once, vec![Some((50, 50)), Some((-5, 12)), Some((8, 9)), None]);
}

#[test]
fn pending_position_is_applied_once() {
    let genome = genome(&[("Mode 0", 0, 0), ("Mode 1", 1, 1)]);
    let mut g = GenomeNodeGraph::new();
    g.pending_position = Some((1, 30, 40));
    rebuild_node_graph(&genome, &mut g);
    assert_eq!(g.get_node_position(1), Some((30, 40)));
    assert_eq!(g.pending_position, None);
    assert!(!g.needs_layout);
    let mut g = GenomeNodeGraph::new();
    g.pending_position = Some((5, 30, 40));
    rebuild_node_graph(&genome, &mut g);
    assert_eq!(g.pending_position, None);
    assert!(!g.needs_layout);
    assert_eq!(g.get_node_position(1), Some((300, 50)));
}

#[test]
fn refresh_rebuilds_then_lays_out() {
    let genome = genome(&[("Mode 0", 1, 0), ("Mode 1", 1, 1)]);
    let mut g = GenomeNodeGraph::new();
    g.mark_for_rebuild();
    refresh_node_graph(&genome, &mut g);
    assert!(!g.needs_rebuild && !g.needs_layout);
    assert_eq!(g.get_node_position(0), Some((50, 50)));
    assert_eq!(g.get_node_position(1), Some((300, 50)));
    assert_eq!(g.links, vec![(0, 1, true)]);
    g.set_node_position(0, 1, 1);
    refresh_node_graph(&genome, &mut g);
    assert_eq!(g.get_node_position(0), Some((1, 1)));
}

#[test]
fn pin_encoding_round_trips() {
    assert_eq!(input_pin_id(7), 700);
    assert_eq!(output_pin_id(7, true), 701);
    assert_eq!(output_pin_id(7, false), 702);
    assert_eq!(pin_node(701), 7);
    assert_eq!(pin_node(700), 7);
    assert!(pin_is_child_a(701));
    assert!(!pin_is_child_a(702));
    assert_eq!(pin_node(output_pin_id(i32::MAX / 100, false)), i32::MAX / 100);
    for pin in [-1, -5, -99, -100, -101, -250, i32::MIN, 0, 1, 199] {
        assert_eq!(pin_node(pin), pin / 100, "{}", pin);
        assert_eq!(pin_is_child_a(pin), pin % 100 == 1, "{}", pin);
    }
}

#[test]
fn negative_pins_decode_toward_zero() {
    let (mut current, mut g) = editor_with_graph();
    // -1 truncates to node 0, and its remainder is not the child-A slot.
    handle_link_created(&mut current, &mut g, -1, input_pin_id(1));
    assert_eq!(current.genome.modes[0].child_b_mode, 1);
    assert_eq!(current.genome.modes[0].child_a_mode, 0);
    assert!(g.links.contains(&(0, 1, false)));
}

fn editor_with_graph() -> (CurrentGenome<()>, GenomeNodeGraph) {
    let mut current = CurrentGenome::new(());
    current.add_mode(());
    current.selected_mode_index = 1;
    current.add_mode(());
    let mut g = GenomeNodeGraph::new();
    rebuild_node_graph(&current.genome, &mut g);
    (current, g)
}

#[test]
fn drawn_link_rewires_child_slot() {
    let (mut current, mut g) = editor_with_graph();
    handle_link_created(&mut current, &mut g, output_pin_id(0, false), input_pin_id(2));
    assert_eq!(current.genome.modes[0].child_b_mode, 2);
    assert_eq!(current.genome.modes[0].child_a_mode, 0);
    assert!(g.links.contains(&(0, 2, false)));
    assert!(g.needs_rebuild);
    handle_link_created(&mut current, &mut g, output_pin_id(1, true), input_pin_id(0));
    assert_eq!(current.genome.modes[1].child_a_mode, 0);
    assert!(current.genome.is_valid());
}

#[test]
fn link_to_unknown_node_changes_nothing() {
    let (mut current, mut g) = editor_with_graph();
    let links = g.links.clone();
    handle_link_created(&mut current, &mut g, output_pin_id(0, true), input_pin_id(9));
    assert_eq!(current.genome.modes[0].child_a_mode, 0);
    assert_eq!(g.links, links);
    assert!(!g.needs_rebuild);
}

#[test]
fn dropped_or_right_clicked_link_becomes_self_reference() {
    let (mut current, mut g) = editor_with_graph();
    assert!(current.set_child_mode(2, true, 0));
    assert!(current.set_child_mode(2, false, 1));
    rebuild_node_graph(&current.genome, &mut g);
    let a_link = g.links.iter().position(|l| *l == (2, 0, true)).unwrap() as i32;
    handle_link_destroyed(&mut current, &mut g, a_link);
    assert_eq!(current.genome.modes[2].child_a_mode, 2);
    assert_eq!(current.genome.modes[2].child_b_mode, 1);
    assert!(g.needs_rebuild);
    rebuild_node_graph(&current.genome, &mut g);
    g.needs_rebuild = false;
    let b_link = g.links.iter().position(|l| *l == (2, 1, false)).unwrap() as i32;
    handle_link_make_self_referential(&mut current, &mut g, b_link);
    assert_eq!(current.genome.modes[2].child_b_mode, 2);
    assert!(g.needs_rebuild);
    g.needs_rebuild = false;
    handle_link_make_self_referential(&mut current, &mut g, 40);
    handle_link_destroyed(&mut current, &mut g, -2);
    assert!(!g.needs_rebuild);
}
