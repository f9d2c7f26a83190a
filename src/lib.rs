pub mod editor;
pub mod genome_data;
pub mod naming;
pub mod node_graph;
pub mod renumber;
pub mod sync;
pub mod ui_state;
