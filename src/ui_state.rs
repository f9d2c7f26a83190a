use vstd::prelude::*;

verus! {

/// The look applied to the editor's widgets.
#[derive(Clone, Copy, PartialEq, Eq, Debug, Structural)]
pub enum ImguiTheme {
    ModernDark,
    Industrial,
    WarmOrange,
    CellLab,
}

/// The display name of a theme.
pub open spec fn theme_name(t: ImguiTheme) -> Seq<char> {
    match t {
        ImguiTheme::ModernDark => "Modern Dark"@,
        ImguiTheme::Industrial => "Industrial"@,
        ImguiTheme::WarmOrange => "Warm Orange"@,
        ImguiTheme::CellLab => "Cell Lab"@,
    }
}

impl ImguiTheme {
    pub fn name(&self) -> (r: &'static str)
        ensures
            r@ == theme_name(*self),
    {
        match self {
            ImguiTheme::ModernDark => "Modern Dark",
            ImguiTheme::Industrial => "Industrial",
            ImguiTheme::WarmOrange => "Warm Orange",
            ImguiTheme::CellLab => "Cell Lab",
        }
    }

    pub fn all() -> (r: &'static [ImguiTheme])
        ensures
            r@ == seq![
                ImguiTheme::ModernDark,
                ImguiTheme::Industrial,
                ImguiTheme::WarmOrange,
                ImguiTheme::CellLab,
            ],
    {
        &[ImguiTheme::ModernDark, ImguiTheme::Industrial, ImguiTheme::WarmOrange, ImguiTheme::CellLab]
    }
}

/// Which theme is in use, and whether it still has to be applied.
pub struct ImguiThemeState {
    pub current_theme: ImguiTheme,
    pub theme_changed: bool,
}

impl Default for ImguiThemeState {
    /// Modern Dark, applied on the first frame.
    fn default() -> (r: Self)
        ensures
            r.current_theme == ImguiTheme::ModernDark,
            r.theme_changed,
    {
        ImguiThemeState { current_theme: ImguiTheme::ModernDark, theme_changed: true }
    }
}

/// Whether the debug panel is shown.
pub struct ImguiPanelState {
    pub show_debug_info: bool,
}

impl Default for ImguiPanelState {
    fn default() -> (r: Self)
        ensures
            r.show_debug_info,
    {
        ImguiPanelState { show_debug_info: true }
    }
}

/// The scene manager window: open or not, and whether it asks to confirm
/// leaving.
pub struct SceneManagerState {
    pub window_open: bool,
    pub show_exit_confirmation: bool,
}

impl Default for SceneManagerState {
    fn default() -> (r: Self)
        ensures
            r.window_open,
            !r.show_exit_confirmation,
    {
        SceneManagerState { window_open: true, show_exit_confirmation: false }
    }
}

/// How many cells the CPU scene makes room for.
pub struct CpuCellCapacity {
    pub capacity: usize,
}

impl Default for CpuCellCapacity {
    fn default() -> (r: Self)
        ensures
            r.capacity == 4096,
    {
        CpuCellCapacity { capacity: 4096 }
    }
}

/// A grid density chosen by the user, applied when the scene is reset.
pub struct PendingGridDensity {
    pub density: u32,
}

impl Default for PendingGridDensity {
    /// A 64 x 64 x 64 grid.
    fn default() -> (r: Self)
        ensures
            r.density == 64,
    {
        PendingGridDensity { density: 64 }
    }
}

/// Which engine runs the simulation.
#[derive(Debug, Clone, Copy, PartialEq, Eq, Hash, Structural)]
pub enum SimulationMode {
    Cpu,
    Preview,
}

impl Default for SimulationMode {
    fn default() -> (r: Self)
        ensures
            r == SimulationMode::Preview,
    {
        SimulationMode::Preview
    }
}

/// The window edge or corner being dragged to resize a window.
#[derive(Debug, Clone, Copy, PartialEq, Eq, Structural)]
pub enum ResizeEdge {
    NoEdge,
    Top,
    Bottom,
    Left,
    Right,
    TopLeft,
    TopRight,
    BottomLeft,
    BottomRight,
}

/// The display name of a cell type.
pub open spec fn cell_type_name(cell_type: i32) -> Seq<char> {
    if cell_type == 0 {
        "Test (Nutrient)"@
    } else if cell_type == 1 {
        "Flagellocyte"@
    } else if cell_type == 2 {
        "Photocyte"@
    } else if cell_type == 3 {
        "Phagocyte"@
    } else {
        "Unknown"@
    }
}

/// The display name of a cell type; "Unknown" for a number no type has.
pub fn get_cell_type_name(cell_type: i32) -> (r: &'static str)
    ensures
        r@ == cell_type_name(cell_type),
{
    match cell_type {
        0 => "Test (Nutrient)",
        1 => "Flagellocyte",
        2 => "Photocyte",
        3 => "Phagocyte",
        _ => "Unknown",
    }
}

} // verus!
