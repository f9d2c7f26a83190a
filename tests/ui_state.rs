use genome_core::ui_state::{
    get_cell_type_name, CpuCellCapacity, ImguiPanelState, ImguiTheme, ImguiThemeState,
    PendingGridDensity, ResizeEdge, SceneManagerState, SimulationMode,
};

#[test]
fn theme_names_and_order() {
    let names: Vec<&str> = ImguiTheme::all().iter().map(|t| t.name()).collect();
    assert_eq!(names, vec!["Modern Dark", "Industrial", "Warm Orange", "Cell Lab"]);
    assert_eq!(ImguiTheme::all()[3], ImguiTheme::CellLab);
}

#[test]
fn state_defaults() {
    let t = ImguiThemeState::default();
    assert_eq!(t.current_theme, ImguiTheme::ModernDark);
    assert!(t.theme_changed);
    assert!(ImguiPanelState::default().show_debug_info);
    let s = SceneManagerState::default();
    assert!(s.window_open && !s.show_exit_confirmation);
    assert_eq!(CpuCellCapacity::default().capacity, 4096);
    assert_eq!(PendingGridDensity::default().density, 64);
    assert_eq!(SimulationMode::default(), SimulationMode::Preview);
    assert_ne!(ResizeEdge::NoEdge, ResizeEdge::TopLeft);
}

#[test]
fn cell_type_names() {
    assert_eq!(get_cell_type_name(0), "Test (Nutrient)");
    assert_eq!(get_cell_type_name(1), "Flagellocyte");
    assert_eq!(get_cell_type_name(2), "Photocyte");
    assert_eq!(get_cell_type_name(3), "Phagocyte");
    assert_eq!(get_cell_type_name(4), "Unknown");
    assert_eq!(get_cell_type_name(-1), "Unknown");
}
