use genome_core::editor::{
    add_mode_at_position, add_mode_with_graph, remove_mode_for_node, remove_selected_mode,
    select_mode_for_node, set_child_mode_with_graph, RemoveModeError,
};
use genome_core::naming::trim;
use genome_core::genome_data::{CurrentGenome, GenomeData, ModeSettings};
use genome_core::node_graph::GenomeNodeGraph;
use genome_core::renumber::update_mode_numbers_after_insert;
use genome_core::sync::rebuild_node_graph;

fn mode(name: &str, a: i32, b: i32) -> ModeSettings<u32> {
    let mut m = ModeSettings::new_self_splitting(0, name.to_string(), 0);
    m.child_a_mode = a;
    m.child_b_mode = b;
    m
}

fn genome(modes: Vec<ModeSettings<u32>>, initial: i32) -> GenomeData<u32> {
    GenomeData { name: "g".to_string(), initial_mode: initial, modes }
}

fn refs(g: &GenomeData<u32>) -> Vec<(i32, i32)> {
    g.modes.iter().map(|m| (m.child_a_mode, m.child_b_mode)).collect()
}

#[test]
fn insert_then_remove_two_mode_scenario() {
    let mut g = genome(vec![mode("M0", 0, 0), mode("M1", 0, 1)], 0);
    g.insert_mode(1, mode("M2", 5, 7));
    assert_eq!(refs(&g), vec![(0, 0), (1, 1), (0, 2)]);
    assert_eq!(g.modes[1].name, "M2");
    assert_eq!(g.modes[2].name, "M1");
    assert_eq!(g.initial_mode, 0);
    g.remove_mode_at(2);
    assert_eq!(refs(&g), vec![(0, 0), (1, 1)]);
    assert_eq!(g.initial_mode, 0);
    assert!(g.is_valid());
}

#[test]
fn new_mode_settings_split_into_themselves() {
    let m = ModeSettings::new_self_splitting(4, "Mode 4".to_string(), 9u32);
    assert_eq!(m.name, "Mode 4");
    assert_eq!(m.default_name, "Mode 4");
    assert_eq!((m.child_a_mode, m.child_b_mode), (4, 4));
    assert_eq!(m.payload, 9);
}

#[test]
fn insert_keeps_every_relationship() {
    let mut g = genome(
        vec![mode("A", 1, 3), mode("B", 2, 0), mode("C", 3, 3), mode("D", 0, 2)],
        2,
    );
    let before = refs(&g);
    let k = 2usize;
    g.insert_mode(k, mode("N", 0, 0));
    let shift = |r: i32| if r >= k as i32 { r + 1 } else { r };
    for (j, (a, b)) in before.iter().enumerate() {
        let moved = shift(j as i32) as usize;
        assert_eq!(g.modes[moved].child_a_mode, shift(*a));
        assert_eq!(g.modes[moved].child_b_mode, shift(*b));
    }
    assert_eq!((g.modes[k].child_a_mode, g.modes[k].child_b_mode), (2, 2));
    assert_eq!(g.initial_mode, 3);
    assert_eq!(refs(&g), vec![(1, 4), (3, 0), (2, 2), (4, 4), (0, 3)]);
}

#[test]
fn insert_at_end_and_front() {
    let mut g = genome(vec![mode("A", 0, 0)], 0);
    g.insert_mode(1, mode("B", 0, 0));
    assert_eq!(refs(&g), vec![(0, 0), (1, 1)]);
    g.insert_mode(0, mode("C", 1, 1));
    assert_eq!(refs(&g), vec![(0, 0), (1, 1), (2, 2)]);
    assert_eq!(g.initial_mode, 1);
}

#[test]
fn remove_redirects_references() {
    let mut g = genome(
        vec![mode("A", 2, 1), mode("B", 2, 3), mode("C", 0, 2), mode("D", 2, 3)],
        0,
    );
    g.remove_mode_at(2);
    // A pointed at C: now itself; B pointed at C: now itself, and D moved down.
    assert_eq!(refs(&g), vec![(0, 1), (1, 2), (2, 2)]);
    assert_eq!(g.modes[2].name, "D");
    assert!(g.is_valid());
}

#[test]
fn remove_of_initial_mode_resets_it_to_zero() {
    let mut g = genome(vec![mode("A", 0, 0), mode("B", 1, 1), mode("C", 2, 2)], 1);
    g.remove_mode_at(1);
    assert_eq!(g.initial_mode, 0);
    let mut g = genome(vec![mode("A", 0, 0), mode("B", 1, 1), mode("C", 2, 2)], 2);
    g.remove_mode_at(0);
    assert_eq!(g.initial_mode, 1);
}

#[test]
fn direct_renumbering_after_insert() {
    let mut g = genome(vec![mode("A", 1, 0), mode("X", 9, 9), mode("B", 1, 1)], 1);
    update_mode_numbers_after_insert(&mut g, 1);
    assert_eq!(refs(&g), vec![(2, 0), (1, 1), (2, 2)]);
    assert_eq!(g.initial_mode, 2);
}

#[test]
fn sequence_of_edits_keeps_genome_valid() {
    let mut current = CurrentGenome::new(0u32);
    assert!(current.genome.is_valid());
    for step in 0..30u32 {
        current.selected_mode_index = (step % 5) as i32;
        current.add_mode(step);
        assert!(current.genome.is_valid());
        if step % 3 == 0 {
            let _ = current.set_child_mode(0, true, current.genome.modes.len() - 1);
        }
        if step % 4 == 1 {
            let victim = current.genome.modes.len() / 2;
            let _ = current.remove_mode(victim);
            assert!(current.genome.is_valid());
        }
    }
    while current.genome.modes.len() > 1 {
        let last = current.genome.modes.len() - 1;
        let target = if last as i32 == current.genome.initial_mode { 0 } else { last };
        if current.remove_mode(target).is_err() {
            assert!(current.set_initial_mode(0));
        }
        assert!(current.genome.is_valid());
    }
}

#[test]
fn default_genome() {
    let current = CurrentGenome::new(3u32);
    assert_eq!(current.genome.name, "Default Genome");
    assert_eq!(current.genome.modes.len(), 1);
    assert_eq!(current.genome.modes[0].name, "Mode 0");
    assert_eq!(current.genome.modes[0].default_name, "Mode 0");
    assert_eq!(current.genome.initial_mode, 0);
    assert_eq!(current.selected_mode_index, 0);
    assert!(!current.show_mode_glow && !current.show_genome_graph);
    let g = GenomeData::with_default_mode("x".to_string(), 1u8);
    assert_eq!(g.name, "x");
    assert_eq!(g.modes[0].payload, 1);
}

#[test]
fn add_mode_inserts_after_selection_with_derived_name() {
    let mut current = CurrentGenome::new(0u32);
    let at = current.add_mode(1);
    assert_eq!(at, 1);
    assert_eq!(current.genome.modes[1].name, "Mode 1");
    assert_eq!(current.genome.modes[1].default_name, "Mode 1");
    assert_eq!(current.genome.modes[1].payload, 1);
    current.selected_mode_index = 0;
    let at = current.add_mode(2);
    assert_eq!(at, 1);
    assert_eq!(current.genome.modes[1].name, "Mode 0.1");
    assert_eq!(current.genome.modes[2].name, "Mode 1");
    assert_eq!(current.selected_mode_index, 0);
}

#[test]
fn add_mode_without_selection_appends() {
    let mut current = CurrentGenome::new(0u32);
    current.selected_mode_index = -1;
    let at = current.add_mode(0);
    assert_eq!(at, 1);
    assert_eq!(current.genome.modes[1].name, "Mode 1");
    current.selected_mode_index = 7;
    let at = current.add_mode(0);
    assert_eq!(at, 2);
    assert_eq!(current.genome.modes[2].name, "Mode 2");
    assert_eq!(current.selected_mode_index, 7);
}

#[test]
fn remove_mode_errors() {
    let mut current = CurrentGenome::new(0u32);
    assert_eq!(current.remove_mode(0), Err(RemoveModeError::LastMode));
    assert_eq!(current.remove_mode(5), Err(RemoveModeError::OutOfRange));
    current.add_mode(0);
    assert_eq!(current.remove_mode(0), Err(RemoveModeError::InitialMode));
    assert_eq!(current.genome.modes.len(), 2);
    assert_eq!(current.remove_mode(1), Ok(()));
    assert_eq!(current.genome.modes.len(), 1);
}

#[test]
fn remove_mode_clamps_selection() {
    let mut current = CurrentGenome::new(0u32);
    current.add_mode(0);
    current.selected_mode_index = 1;
    current.add_mode(0);
    assert_eq!(current.genome.modes.len(), 3);
    current.selected_mode_index = 2;
    assert_eq!(current.remove_mode(2), Ok(()));
    assert_eq!(current.selected_mode_index, 1);
    current.selected_mode_index = 0;
    assert_eq!(current.remove_mode(1), Ok(()));
    assert_eq!(current.selected_mode_index, 0);
}

#[test]
fn validity_check_rejects_dangling_references() {
    assert!(genome(vec![mode("A", 0, 0)], 0).is_valid());
    assert!(!genome(vec![mode("A", 1, 0)], 0).is_valid());
    assert!(!genome(vec![mode("A", 0, -1)], 0).is_valid());
    assert!(!genome(vec![mode("A", 0, 0)], 1).is_valid());
    assert!(!genome(vec![mode("A", 0, 0)], -1).is_valid());
    assert!(!genome(vec![], 0).is_valid());
}

#[test]
fn field_edits_are_validated() {
    let mut current = CurrentGenome::new(0u32);
    current.add_mode(0);
    assert!(current.set_child_mode(0, false, 1));
    assert_eq!(current.genome.modes[0].child_b_mode, 1);
    assert!(!current.set_child_mode(0, true, 2));
    assert!(!current.set_child_mode(2, true, 0));
    assert!(current.set_initial_mode(1));
    assert_eq!(current.genome.initial_mode, 1);
    assert!(!current.set_initial_mode(2));
    assert!(current.select_mode(1));
    assert_eq!(current.selected_mode_index, 1);
    assert!(!current.select_mode(9));
    assert_eq!(current.selected_mode_index, 1);
}

#[test]
fn reset_mode_replaces_only_the_payload() {
    let mut current = CurrentGenome::new(5u32);
    current.add_mode(6);
    current.genome.modes[1].name = "Custom".to_string();
    current.genome.modes[1].child_a_mode = 0;
    current.selected_mode_index = 1;
    assert!(current.reset_mode(0));
    let m = &current.genome.modes[1];
    assert_eq!((m.name.as_str(), m.default_name.as_str()), ("Custom", "Mode 1"));
    assert_eq!((m.child_a_mode, m.child_b_mode, m.payload), (0, 1, 0));
    current.selected_mode_index = -3;
    assert!(!current.reset_mode(1));
}

#[test]
fn graph_driven_add_and_remove() {
    let mut current = CurrentGenome::new(0u32);
    let mut graph = GenomeNodeGraph::new();
    rebuild_node_graph(&current.genome, &mut graph);
    let at = add_mode_at_position(&mut current, &mut graph, 0, 120, -40);
    assert_eq!(at, 1);
    assert_eq!(graph.pending_position, Some((1, 120, -40)));
    assert!(graph.needs_rebuild && graph.needs_layout);
    rebuild_node_graph(&current.genome, &mut graph);
    assert_eq!(graph.get_node_position(1), Some((120, -40)));
    assert_eq!(remove_mode_for_node(&mut current, &mut graph, 0), Err(RemoveModeError::InitialMode));
    assert_eq!(remove_mode_for_node(&mut current, &mut graph, 42), Err(RemoveModeError::UnknownNode));
    graph.needs_rebuild = false;
    assert_eq!(remove_mode_for_node(&mut current, &mut graph, 1), Ok(()));
    assert!(graph.needs_rebuild);
    assert_eq!(current.genome.modes.len(), 1);
}

#[test]
fn selecting_a_node_selects_its_mode() {
    let mut current = CurrentGenome::new(0u32);
    current.add_mode(0);
    let mut graph = GenomeNodeGraph::new();
    rebuild_node_graph(&current.genome, &mut graph);
    assert!(select_mode_for_node(&mut current, &graph, 1));
    assert_eq!(current.selected_mode_index, 1);
    assert!(!select_mode_for_node(&mut current, &graph, 5));
    assert_eq!(current.selected_mode_index, 1);
}

#[test]
fn form_edits_ask_the_graph_to_rebuild() {
    let mut current = CurrentGenome::new(0u32);
    let mut graph = GenomeNodeGraph::new();
    rebuild_node_graph(&current.genome, &mut graph);
    assert!(!graph.needs_rebuild && !graph.needs_layout);
    assert_eq!(add_mode_with_graph(&mut current, &mut graph, 4), 1);
    assert_eq!(current.genome.modes[1].name, "Mode 1");
    assert!(graph.needs_rebuild && graph.needs_layout);
    assert_eq!(graph.pending_position, None);
    rebuild_node_graph(&current.genome, &mut graph);
    assert!(set_child_mode_with_graph(&mut current, &mut graph, 0, true, 1));
    assert_eq!(current.genome.modes[0].child_a_mode, 1);
    assert!(graph.needs_rebuild);
    rebuild_node_graph(&current.genome, &mut graph);
    assert!(!set_child_mode_with_graph(&mut current, &mut graph, 0, true, 2));
    assert!(!graph.needs_rebuild);
    current.selected_mode_index = 0;
    assert_eq!(remove_selected_mode(&mut current, &mut graph), Err(RemoveModeError::InitialMode));
    assert!(!graph.needs_rebuild);
    current.selected_mode_index = -1;
    assert_eq!(remove_selected_mode(&mut current, &mut graph), Err(RemoveModeError::OutOfRange));
    current.selected_mode_index = 1;
    assert_eq!(remove_selected_mode(&mut current, &mut graph), Ok(()));
    assert!(graph.needs_rebuild);
    assert_eq!(current.genome.modes.len(), 1);
    assert_eq!(current.genome.modes[0].child_a_mode, 0);
    assert_eq!(current.selected_mode_index, 0);
}

#[test]
fn rename_falls_back_to_default_name() {
    let mut current = CurrentGenome::new(0u32);
    current.add_mode(0);
    assert!(current.rename_mode(1, "  Stem cell\t"));
    assert_eq!(current.genome.modes[1].name, "Stem cell");
    assert_eq!(current.genome.modes[1].default_name, "Mode 1");
    assert!(current.rename_mode(1, " \n "));
    assert_eq!(current.genome.modes[1].name, "Mode 1");
    assert!(current.rename_mode(1, ""));
    assert_eq!(current.genome.modes[1].name, "Mode 1");
    assert!(!current.rename_mode(2, "x"));
}

#[test]
fn trim_matches_std() {
    for s in ["", "  ", "a", " a b ", "\u{3000}x\u{a0}", "\t\n", "x\u{200b}", "\u{85}é\u{2029}"] {
        assert_eq!(trim(s), s.trim(), "{:?}", s);
    }
}
