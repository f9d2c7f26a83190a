use vstd::prelude::*;
use crate::genome_data::{
    inserted_modes, removed_modes, initial_after_remove, shift_after_insert, with_children, CurrentGenome,
    GenomeData, ModeSettings,
};
use crate::naming::{
    append_decimal, decimal, trim, trimmed, generate_next_mode_name, mode_prefix, new_mode_prefix, next_mode_name,
};
use crate::node_graph::{grid_layout, lookup, without_slot, GenomeNodeGraph};
use crate::sync::{derived_links, rebuild_node_graph, rebuild_positions, rebuilt_names, rebuilt_node_modes};

verus! {

/// Why a mode could not be removed. A refused removal changes nothing.
#[derive(Clone, Copy, PartialEq, Eq, Debug, Structural)]
pub enum RemoveModeError {
    /// No mode has that index.
    OutOfRange,
    /// The genome would be left without modes.
    LastMode,
    /// The mode is the genome's initial mode.
    InitialMode,
    /// The node stands for no mode.
    UnknownNode,
}

/// How many pin ids each node owns: `node * 100` is its parent (input) pin,
/// `node * 100 + 1` its child-A pin and `node * 100 + 2` its child-B pin.
pub const PINS_PER_NODE: i32 = 100;

/// The mode list with one child reference of mode `parent` set to `target`.
pub open spec fn set_child<P>(modes: Seq<ModeSettings<P>>, parent: int, is_child_a: bool, target: i32) -> Seq<
    ModeSettings<P>,
> {
    let m = modes[parent];
    modes.update(
        parent,
        if is_child_a {
            with_children(m, target, m.child_b_mode)
        } else {
            with_children(m, m.child_a_mode, target)
        },
    )
}

/// Where a new mode goes: right after the selected mode, or at the end when
/// no mode is selected.
pub open spec fn insertion_index(len: int, selected: i32) -> int {
    if 0 <= selected < len {
        selected + 1
    } else {
        len
    }
}

/// The name a new mode receives: derived from the selected mode's default
/// name, or "Mode <number of modes>" when no mode is selected.
pub open spec fn added_mode_name<P>(modes: Seq<ModeSettings<P>>, selected: i32) -> Seq<char> {
    if 0 <= selected < modes.len() {
        next_mode_name(modes[selected as int].default_name@, modes)
    } else {
        mode_prefix() + decimal(modes.len())
    }
}

/// Which removal error, if any, `remove_mode` reports for `index`.
pub open spec fn removal_error<P>(g: GenomeData<P>, index: int) -> Option<RemoveModeError> {
    if index >= g.modes.len() {
        Some(RemoveModeError::OutOfRange)
    } else if g.modes.len() <= 1 {
        Some(RemoveModeError::LastMode)
    } else if index == g.initial_mode {
        Some(RemoveModeError::InitialMode)
    } else {
        None
    }
}

/// The selection once the mode list has shrunk to `len` modes.
pub open spec fn clamped_selection(selected: i32, len: int) -> i32 {
    if selected >= len {
        (len - 1) as i32
    } else {
        selected
    }
}

/// The parent (input) pin of a node.
pub fn input_pin_id(node_id: i32) -> (r: i32)
    requires
        0 <= node_id <= i32::MAX / PINS_PER_NODE,
    ensures
        r == node_id * PINS_PER_NODE,
{
    node_id * PINS_PER_NODE
}

/// The child-A or child-B (output) pin of a node.
pub fn output_pin_id(node_id: i32, is_child_a: bool) -> (r: i32)
    requires
        0 <= node_id <= i32::MAX / PINS_PER_NODE,
    ensures
        r == node_id * PINS_PER_NODE + if is_child_a {
            1int
        } else {
            2int
        },
{
    if is_child_a {
        node_id * PINS_PER_NODE + 1
    } else {
        node_id * PINS_PER_NODE + 2
    }
}

/// `a / b` rounded toward zero, as integer division does.
pub open spec fn div_toward_zero(a: int, b: int) -> int {
    if a >= 0 {
        a / b
    } else {
        -((-a) / b)
    }
}

/// The remainder that goes with `div_toward_zero`; it takes the sign of `a`.
pub open spec fn rem_toward_zero(a: int, b: int) -> int {
    a - b * div_toward_zero(a, b)
}

/// The node a pin belongs to.
pub fn pin_node(pin: i32) -> (r: i32)
    ensures
        r == div_toward_zero(pin as int, PINS_PER_NODE as int),
{
    if pin >= 0 {
        pin / PINS_PER_NODE
    } else {
        let magnitude: i64 = 0 - pin as i64;
        (0 - magnitude / (PINS_PER_NODE as i64)) as i32
    }
}

/// Whether an output pin is a child-A pin.
pub fn pin_is_child_a(pin: i32) -> (r: bool)
    ensures
        r == (rem_toward_zero(pin as int, PINS_PER_NODE as int) == 1),
{
    if pin >= 0 {
        pin % PINS_PER_NODE == 1
    } else {
        proof {
            let a = pin as int;
            let q = (-a) / 100;
            assert(0 <= (-a) - 100 * q < 100) by (nonlinear_arith)
                requires
                    -a > 0,
                    q == (-a) / 100,
            ;
        }
        false
    }
}

/// What a link drawn from `output_pin` to `input_pin` connects, in mode
/// indices: (parent mode, child mode). None when a node is unknown or a mode
/// index is out of range.
pub open spec fn drawn_link_modes(g: GenomeNodeGraph, len: int, output_pin: i32, input_pin: i32) -> Option<
    (usize, usize),
> {
    let parent = lookup(g.node_to_mode@, div_toward_zero(output_pin as int, PINS_PER_NODE as int) as i32);
    let child = lookup(g.node_to_mode@, div_toward_zero(input_pin as int, PINS_PER_NODE as int) as i32);
    match (parent, child) {
        (Some(p), Some(c)) => if p < len && c < len {
            Some((p, c))
        } else {
            None
        },
        _ => None,
    }
}

/// Writes a link that the user drew back into the genome: the parent mode's
/// child slot named by the output pin now refers to the child mode, the link
/// replaces the slot's previous link, and a rebuild is asked for. A link
/// between unknown nodes changes nothing.
pub fn handle_link_created<P>(
    current_genome: &mut CurrentGenome<P>,
    node_graph: &mut GenomeNodeGraph,
    output_pin: i32,
    input_pin: i32,
)
    requires
        old(current_genome).genome.wf(),
        old(node_graph).wf(),
    ensures
        final(current_genome).genome.wf(),
        final(node_graph).wf(),
        final(current_genome).genome.name == old(current_genome).genome.name,
        final(current_genome).genome.initial_mode == old(current_genome).genome.initial_mode,
        final(current_genome).selected_mode_index == old(current_genome).selected_mode_index,
        final(current_genome).show_mode_glow == old(current_genome).show_mode_glow,
        final(current_genome).show_genome_graph == old(current_genome).show_genome_graph,
        match drawn_link_modes(
            *old(node_graph),
            old(current_genome).genome.modes.len() as int,
            output_pin,
            input_pin,
        ) {
            Some((p, c)) => {
                let parent_node = div_toward_zero(output_pin as int, PINS_PER_NODE as int) as i32;
                let child_node = div_toward_zero(input_pin as int, PINS_PER_NODE as int) as i32;
                let is_a = rem_toward_zero(output_pin as int, PINS_PER_NODE as int) == 1;
                &&& final(current_genome).genome.modes@ == set_child(
                    old(current_genome).genome.modes@,
                    p as int,
                    is_a,
                    c as i32,
                )
                &&& final(node_graph).links@ == without_slot(
                    old(node_graph).links@,
                    parent_node,
                    is_a,
                ).push((parent_node, child_node, is_a))
                &&& final(node_graph).needs_rebuild && final(node_graph).needs_layout
                &&& final(node_graph).node_to_mode == old(node_graph).node_to_mode
                &&& final(node_graph).mode_to_node == old(node_graph).mode_to_node
                &&& final(node_graph).node_positions == old(node_graph).node_positions
            },
            None => final(current_genome).genome.modes == old(current_genome).genome.modes
                && *final(node_graph) == *old(node_graph),
        },
{
    let parent_node = pin_node(output_pin);
    let child_node = pin_node(input_pin);
    let is_child_a = pin_is_child_a(output_pin);
    let n = current_genome.genome.modes.len();
    match (node_graph.get_mode_for_node(parent_node), node_graph.get_mode_for_node(child_node)) {
        (Some(parent), Some(child)) => {
            if parent < n && child < n {
                let ghost before = current_genome.genome.modes@;
                if is_child_a {
                    current_genome.genome.modes[parent].child_a_mode = child as i32;
                } else {
                    current_genome.genome.modes[parent].child_b_mode = child as i32;
                }
                proof {
                    assert(current_genome.genome.modes@ =~= set_child(
                        before,
                        parent as int,
                        is_child_a,
                        child as i32,
                    ));
                    assert forall|i: int| 0 <= i < n implies #[trigger] current_genome.genome.modes@[i]
                        == (if i == parent {
                        current_genome.genome.modes@[i]
                    } else {
                        before[i]
                    }) by {}
                }
                node_graph.add_link(parent_node, child_node, is_child_a);
                node_graph.mark_for_rebuild();
            }
        },
        _ => {},
    }
}

/// The parent mode whose child slot the link at `link_id` stands for, with
/// the slot. None when there is no such link or its parent is no mode.
pub open spec fn linked_slot(g: GenomeNodeGraph, len: int, link_id: i32) -> Option<(usize, bool)> {
    if 0 <= link_id < g.links@.len() {
        let l = g.links@[link_id as int];
        match lookup(g.node_to_mode@, l.0) {
            Some(p) => if p < len {
                Some((p, l.2))
            } else {
                None
            },
            None => None,
        }
    } else {
        None
    }
}

/// Makes the child slot behind the link at `link_id` refer back to its own
/// mode ("no differentiation") and asks for a rebuild. An unknown link id
/// changes nothing.
pub fn handle_link_make_self_referential<P>(
    current_genome: &mut CurrentGenome<P>,
    node_graph: &mut GenomeNodeGraph,
    link_id: i32,
)
    requires
        old(current_genome).genome.wf(),
    ensures
        final(current_genome).genome.wf(),
        final(current_genome).genome.name == old(current_genome).genome.name,
        final(current_genome).genome.initial_mode == old(current_genome).genome.initial_mode,
        final(current_genome).selected_mode_index == old(current_genome).selected_mode_index,
        final(current_genome).show_mode_glow == old(current_genome).show_mode_glow,
        final(current_genome).show_genome_graph == old(current_genome).show_genome_graph,
        final(current_genome).genome.modes@ == match linked_slot(
            *old(node_graph),
            old(current_genome).genome.modes.len() as int,
            link_id,
        ) {
            Some((p, is_a)) => set_child(old(current_genome).genome.modes@, p as int, is_a, p as i32),
            None => old(current_genome).genome.modes@,
        },
        0 <= link_id < old(node_graph).links@.len() ==> final(node_graph).needs_rebuild
            && final(node_graph).needs_layout,
        final(node_graph).links == old(node_graph).links,
        final(node_graph).node_to_mode == old(node_graph).node_to_mode,
        final(node_graph).mode_to_node == old(node_graph).mode_to_node,
        final(node_graph).node_to_name == old(node_graph).node_to_name,
        final(node_graph).node_positions == old(node_graph).node_positions,
        final(node_graph).next_node_id == old(node_graph).next_node_id,
        final(node_graph).pending_position == old(node_graph).pending_position,
        !(0 <= link_id < old(node_graph).links@.len()) ==> *final(node_graph) == *old(node_graph),
{
    if link_id < 0 || link_id as usize >= node_graph.links.len() {
        return;
    }
    let (from_node, _to_node, is_child_a) = node_graph.links[link_id as usize];
    let n = current_genome.genome.modes.len();
    match node_graph.get_mode_for_node(from_node) {
        Some(parent) => {
            if parent < n {
                let ghost before = current_genome.genome.modes@;
                if is_child_a {
                    current_genome.genome.modes[parent].child_a_mode = parent as i32;
                } else {
                    current_genome.genome.modes[parent].child_b_mode = parent as i32;
                }
                proof {
                    assert(current_genome.genome.modes@ =~= set_child(
                        before,
                        parent as int,
                        is_child_a,
                        parent as i32,
                    ));
                    assert forall|i: int| 0 <= i < n implies #[trigger] current_genome.genome.modes@[i]
                        == (if i == parent {
                        current_genome.genome.modes@[i]
                    } else {
                        before[i]
                    }) by {}
                }
            }
        },
        None => {},
    }
    node_graph.mark_for_rebuild();
}

/// A link was dragged off its child and dropped on no node: its slot goes
/// back to self-reference, as with `handle_link_make_self_referential`.
pub fn handle_link_destroyed<P>(
    current_genome: &mut CurrentGenome<P>,
    node_graph: &mut GenomeNodeGraph,
    link_id: i32,
)
    requires
        old(current_genome).genome.wf(),
    ensures
        final(current_genome).genome.wf(),
        final(current_genome).genome.name == old(current_genome).genome.name,
        final(current_genome).genome.initial_mode == old(current_genome).genome.initial_mode,
        final(current_genome).selected_mode_index == old(current_genome).selected_mode_index,
        final(current_genome).show_mode_glow == old(current_genome).show_mode_glow,
        final(current_genome).show_genome_graph == old(current_genome).show_genome_graph,
        final(current_genome).genome.modes@ == match linked_slot(
            *old(node_graph),
            old(current_genome).genome.modes.len() as int,
            link_id,
        ) {
            Some((p, is_a)) => set_child(old(current_genome).genome.modes@, p as int, is_a, p as i32),
            None => old(current_genome).genome.modes@,
        },
        0 <= link_id < old(node_graph).links@.len() ==> final(node_graph).needs_rebuild
            && final(node_graph).needs_layout,
        final(node_graph).links == old(node_graph).links,
        final(node_graph).node_to_mode == old(node_graph).node_to_mode,
        final(node_graph).node_positions == old(node_graph).node_positions,
        !(0 <= link_id < old(node_graph).links@.len()) ==> *final(node_graph) == *old(node_graph),
{
    handle_link_make_self_referential(current_genome, node_graph, link_id);
}

impl<P> CurrentGenome<P> {
    pub open spec fn wf(&self) -> bool {
        self.genome.wf()
    }

    /// The editor's starting genome, "Default Genome", with the single mode
    /// "Mode 0" selected; glow and graph window off.
    pub fn new(payload: P) -> (r: Self)
        ensures
            r.wf(),
            r.genome.name@ == "Default Genome"@,
            r.genome.initial_mode == 0,
            r.genome.modes.len() == 1,
            r.genome.modes[0].name@ == "Mode 0"@,
            r.genome.modes[0].default_name@ == "Mode 0"@,
            r.genome.modes[0].child_a_mode == 0,
            r.genome.modes[0].child_b_mode == 0,
            r.genome.modes[0].payload == payload,
            r.selected_mode_index == 0,
            !r.show_mode_glow,
            !r.show_genome_graph,
    {
        CurrentGenome {
            genome: GenomeData::with_default_mode(String::from_str("Default Genome"), payload),
            selected_mode_index: 0,
            show_mode_glow: false,
            show_genome_graph: false,
        }
    }

    /// Inserts a new self-splitting mode right after the selected one (at the
    /// end when none is selected), named after the selected mode, and
    /// renumbers every reference. Returns where the mode went; the selection
    /// keeps pointing at the same mode.
    pub fn add_mode(&mut self, payload: P) -> (r: usize)
        requires
            old(self).wf(),
            old(self).genome.modes.len() < i32::MAX,
        ensures
            final(self).wf(),
            r == insertion_index(old(self).genome.modes.len() as int, old(self).selected_mode_index),
            final(self).genome.modes@ == inserted_modes(
                old(self).genome.modes@,
                r as int,
                final(self).genome.modes@[r as int],
            ),
            final(self).genome.modes@[r as int].name@ == added_mode_name(
                old(self).genome.modes@,
                old(self).selected_mode_index,
            ),
            final(self).genome.modes@[r as int].default_name@ == added_mode_name(
                old(self).genome.modes@,
                old(self).selected_mode_index,
            ),
            final(self).genome.modes@[r as int].payload == payload,
            final(self).genome.initial_mode == shift_after_insert(old(self).genome.initial_mode, r as int),
            final(self).genome.name == old(self).genome.name,
            final(self).selected_mode_index == old(self).selected_mode_index,
            final(self).show_mode_glow == old(self).show_mode_glow,
            final(self).show_genome_graph == old(self).show_genome_graph,
    {
        let n = self.genome.modes.len();
        let sel = self.selected_mode_index;
        let selected_valid = sel >= 0 && (sel as usize) < n;
        let insert_idx = if selected_valid {
            sel as usize + 1
        } else {
            n
        };
        let name = if selected_valid {
            generate_next_mode_name(
                self.genome.modes[sel as usize].default_name.as_str(),
                self.genome.modes.as_slice(),
            )
        } else {
            let mut fallback = new_mode_prefix();
            append_decimal(&mut fallback, n as u64);
            fallback
        };
        let mode = ModeSettings::new_self_splitting(insert_idx as i32, name, payload);
        self.genome.insert_mode(insert_idx, mode);
        insert_idx
    }

    /// Removes the mode at `index` and renumbers every reference, unless the
    /// index is out of range, the mode is the last one, or it is the initial
    /// mode; a refused removal changes nothing. The selection is clamped to
    /// the shorter list.
    pub fn remove_mode(&mut self, index: usize) -> (r: Result<(), RemoveModeError>)
        requires
            old(self).wf(),
        ensures
            final(self).wf(),
            r == match removal_error(old(self).genome, index as int) {
                Some(e) => Err::<(), RemoveModeError>(e),
                None => Ok(()),
            },
            r is Ok ==> {
                &&& final(self).genome.modes@ == removed_modes(old(self).genome.modes@, index as int)
                &&& final(self).genome.initial_mode == initial_after_remove(
                    old(self).genome.initial_mode,
                    index as int,
                )
                &&& final(self).selected_mode_index == clamped_selection(
                    old(self).selected_mode_index,
                    old(self).genome.modes.len() - 1,
                )
                &&& final(self).genome.name == old(self).genome.name
                &&& final(self).show_mode_glow == old(self).show_mode_glow
                &&& final(self).show_genome_graph == old(self).show_genome_graph
            },
            r is Err ==> *final(self) == *old(self),
    {
        let n = self.genome.modes.len();
        if index >= n {
            return Err(RemoveModeError::OutOfRange);
        }
        if n <= 1 {
            return Err(RemoveModeError::LastMode);
        }
        if index as i32 == self.genome.initial_mode {
            return Err(RemoveModeError::InitialMode);
        }
        self.genome.remove_mode_at(index);
        let len = self.genome.modes.len() as i32;
        if self.selected_mode_index >= len {
            self.selected_mode_index = len - 1;
        }
        Ok(())
    }

    /// Makes the mode at `index` the initial mode; refused (false) when no
    /// mode has that index.
    pub fn set_initial_mode(&mut self, index: usize) -> (r: bool)
        requires
            old(self).wf(),
        ensures
            final(self).wf(),
            r == (index < old(self).genome.modes.len()),
            r ==> final(self).genome.initial_mode == index,
            !r ==> final(self).genome.initial_mode == old(self).genome.initial_mode,
            final(self).genome.modes == old(self).genome.modes,
            final(self).genome.name == old(self).genome.name,
            final(self).selected_mode_index == old(self).selected_mode_index,
            final(self).show_mode_glow == old(self).show_mode_glow,
            final(self).show_genome_graph == old(self).show_genome_graph,
    {
        if index < self.genome.modes.len() {
            self.genome.initial_mode = index as i32;
            true
        } else {
            false
        }
    }

    /// Points one child slot of mode `mode` at mode `target`; refused (false)
    /// when either index is out of range.
    pub fn set_child_mode(&mut self, mode: usize, is_child_a: bool, target: usize) -> (r: bool)
        requires
            old(self).wf(),
        ensures
            final(self).wf(),
            r == (mode < old(self).genome.modes.len() && target < old(self).genome.modes.len()),
            r ==> final(self).genome.modes@ == set_child(
                old(self).genome.modes@,
                mode as int,
                is_child_a,
                target as i32,
            ),
            !r ==> final(self).genome.modes == old(self).genome.modes,
            final(self).genome.initial_mode == old(self).genome.initial_mode,
            final(self).genome.name == old(self).genome.name,
            final(self).selected_mode_index == old(self).selected_mode_index,
            final(self).show_mode_glow == old(self).show_mode_glow,
            final(self).show_genome_graph == old(self).show_genome_graph,
    {
        let n = self.genome.modes.len();
        if mode >= n || target >= n {
            return false;
        }
        let ghost before = self.genome.modes@;
        if is_child_a {
            self.genome.modes[mode].child_a_mode = target as i32;
        } else {
            self.genome.modes[mode].child_b_mode = target as i32;
        }
        proof {
            assert(self.genome.modes@ =~= set_child(before, mode as int, is_child_a, target as i32));
            assert forall|i: int| 0 <= i < n implies #[trigger] self.genome.modes@[i] == (if i == mode {
                self.genome.modes@[i]
            } else {
                before[i]
            }) by {}
        }
        true
    }

    /// Renames the mode at `index` to `name` without its surrounding white
    /// space; a name that is blank falls back to the mode's default name.
    /// Refused (false) when no mode has that index.
    pub fn rename_mode(&mut self, index: usize, name: &str) -> (r: bool)
        requires
            old(self).wf(),
        ensures
            final(self).wf(),
            r == (index < old(self).genome.modes.len()),
            r ==> final(self).genome.modes@ == old(self).genome.modes@.update(
                index as int,
                final(self).genome.modes@[index as int],
            ),
            r ==> final(self).genome.modes@[index as int] == (ModeSettings {
                name: final(self).genome.modes@[index as int].name,
                ..old(self).genome.modes@[index as int]
            }),
            r ==> final(self).genome.modes@[index as int].name@ == if trimmed(name@).len() == 0 {
                old(self).genome.modes@[index as int].default_name@
            } else {
                trimmed(name@)
            },
            !r ==> final(self).genome.modes == old(self).genome.modes,
            final(self).genome.initial_mode == old(self).genome.initial_mode,
            final(self).genome.name == old(self).genome.name,
            final(self).selected_mode_index == old(self).selected_mode_index,
            final(self).show_mode_glow == old(self).show_mode_glow,
            final(self).show_genome_graph == old(self).show_genome_graph,
    {
        if index >= self.genome.modes.len() {
            return false;
        }
        let t = trim(name);
        let new_name = if t.unicode_len() == 0 {
            self.genome.modes[index].default_name.clone()
        } else {
            String::from_str(t)
        };
        let ghost before = self.genome.modes@;
        self.genome.modes[index].name = new_name;
        proof {
            assert(self.genome.modes@ =~= before.update(index as int, self.genome.modes@[index as int]));
        }
        true
    }

    /// Selects the mode at `index`; refused (false) when no mode has that
    /// index.
    pub fn select_mode(&mut self, index: usize) -> (r: bool)
        requires
            old(self).wf(),
        ensures
            final(self).wf(),
            r == (index < old(self).genome.modes.len()),
            r ==> final(self).selected_mode_index == index,
            !r ==> final(self).selected_mode_index == old(self).selected_mode_index,
            final(self).genome == old(self).genome,
    {
        if index < self.genome.modes.len() {
            self.selected_mode_index = index as i32;
            true
        } else {
            false
        }
    }

    /// Gives the selected mode fresh behaviour settings, keeping its name,
    /// default name and child references; false when no mode is selected.
    pub fn reset_mode(&mut self, payload: P) -> (r: bool)
        requires
            old(self).wf(),
        ensures
            final(self).wf(),
            r == (0 <= old(self).selected_mode_index < old(self).genome.modes.len()),
            r ==> final(self).genome.modes@ == old(self).genome.modes@.update(
                old(self).selected_mode_index as int,
                ModeSettings { payload, ..old(self).genome.modes@[old(self).selected_mode_index as int] },
            ),
            !r ==> final(self).genome.modes == old(self).genome.modes,
            final(self).genome.initial_mode == old(self).genome.initial_mode,
            final(self).genome.name == old(self).genome.name,
            final(self).selected_mode_index == old(self).selected_mode_index,
            final(self).show_mode_glow == old(self).show_mode_glow,
            final(self).show_genome_graph == old(self).show_genome_graph,
    {
        let sel = self.selected_mode_index;
        if sel < 0 || sel as usize >= self.genome.modes.len() {
            return false;
        }
        let ghost before = self.genome.modes@;
        self.genome.modes[sel as usize].payload = payload;
        proof {
            assert(self.genome.modes@ =~= before.update(
                sel as int,
                ModeSettings { payload, ..before[sel as int] },
            ));
        }
        true
    }
}

/// What `add_mode` states of one insertion: `r` is where the new mode went,
/// it carries `payload` and the derived name, every reference is renumbered
/// and the rest of the editor state stays.
pub open spec fn mode_added<P>(old: CurrentGenome<P>, new: CurrentGenome<P>, r: usize, payload: P) -> bool {
    &&& new.wf()
    &&& r == insertion_index(old.genome.modes.len() as int, old.selected_mode_index)
    &&& new.genome.modes@ == inserted_modes(old.genome.modes@, r as int, new.genome.modes@[r as int])
    &&& new.genome.modes@[r as int].name@ == added_mode_name(old.genome.modes@, old.selected_mode_index)
    &&& new.genome.modes@[r as int].default_name@ == added_mode_name(
        old.genome.modes@,
        old.selected_mode_index,
    )
    &&& new.genome.modes@[r as int].payload == payload
    &&& new.genome.initial_mode == shift_after_insert(old.genome.initial_mode, r as int)
    &&& new.genome.name == old.genome.name
    &&& new.selected_mode_index == old.selected_mode_index
    &&& new.show_mode_glow == old.show_mode_glow
    &&& new.show_genome_graph == old.show_genome_graph
}

/// What `remove_mode` states of a removal of the mode at `index` that went
/// through.
pub open spec fn mode_removed<P>(old: CurrentGenome<P>, new: CurrentGenome<P>, index: int) -> bool {
    &&& new.wf()
    &&& new.genome.modes@ == removed_modes(old.genome.modes@, index)
    &&& new.genome.initial_mode == initial_after_remove(old.genome.initial_mode, index)
    &&& new.selected_mode_index == clamped_selection(
        old.selected_mode_index,
        old.genome.modes.len() - 1,
    )
    &&& new.genome.name == old.genome.name
    &&& new.show_mode_glow == old.show_mode_glow
    &&& new.show_genome_graph == old.show_genome_graph
}

/// The result `remove_mode` gives for `index`.
pub open spec fn removal_result<P>(g: GenomeData<P>, index: int) -> Result<(), RemoveModeError> {
    match removal_error(g, index) {
        Some(e) => Err(e),
        None => Ok(()),
    }
}

/// `new` is `old` with a rebuild and a layout asked for; nodes, names,
/// positions and links stay (the spawn point is stated apart).
pub open spec fn graph_marked(old: GenomeNodeGraph, new: GenomeNodeGraph) -> bool {
    &&& new.wf() == old.wf()
    &&& new.needs_rebuild
    &&& new.needs_layout
    &&& new.mode_to_node == old.mode_to_node
    &&& new.node_to_mode == old.node_to_mode
    &&& new.node_to_name == old.node_to_name
    &&& new.node_positions == old.node_positions
    &&& new.next_node_id == old.next_node_id
    &&& new.links == old.links
    &&& new.next_link_id == old.next_link_id
}

/// Adds a mode from the mode list: as `add_mode`, and the graph is asked
/// to rebuild.
pub fn add_mode_with_graph<P>(
    current_genome: &mut CurrentGenome<P>,
    node_graph: &mut GenomeNodeGraph,
    payload: P,
) -> (r: usize)
    requires
        old(current_genome).wf(),
        old(current_genome).genome.modes.len() < i32::MAX,
    ensures
        mode_added(*old(current_genome), *final(current_genome), r, payload),
        graph_marked(*old(node_graph), *final(node_graph)),
        final(node_graph).pending_position == old(node_graph).pending_position,
{
    let insert_idx = current_genome.add_mode(payload);
    node_graph.mark_for_rebuild();
    insert_idx
}

/// Adds a mode from the graph view: as `add_mode`, with the new node's spawn
/// point set to (x, y) and the graph asked to rebuild.
pub fn add_mode_at_position<P>(
    current_genome: &mut CurrentGenome<P>,
    node_graph: &mut GenomeNodeGraph,
    payload: P,
    x: i64,
    y: i64,
) -> (r: usize)
    requires
        old(current_genome).wf(),
        old(current_genome).genome.modes.len() < i32::MAX,
    ensures
        mode_added(*old(current_genome), *final(current_genome), r, payload),
        graph_marked(*old(node_graph), *final(node_graph)),
        final(node_graph).pending_position == Some((r, x, y)),
{
    let insert_idx = current_genome.add_mode(payload);
    node_graph.pending_position = Some((insert_idx, x, y));
    node_graph.mark_for_rebuild();
    insert_idx
}

/// Removes the selected mode from the mode list: as `remove_mode` on the
/// selected index, and the graph is asked to rebuild when the removal goes
/// through. A negative selection is out of range; a refused removal changes
/// nothing.
pub fn remove_selected_mode<P>(current_genome: &mut CurrentGenome<P>, node_graph: &mut GenomeNodeGraph) -> (r:
    Result<(), RemoveModeError>)
    requires
        old(current_genome).wf(),
    ensures
        final(current_genome).wf(),
        r == if old(current_genome).selected_mode_index < 0 {
            Err(RemoveModeError::OutOfRange)
        } else {
            removal_result(old(current_genome).genome, old(current_genome).selected_mode_index as int)
        },
        r is Ok ==> mode_removed(
            *old(current_genome),
            *final(current_genome),
            old(current_genome).selected_mode_index as int,
        ) && graph_marked(*old(node_graph), *final(node_graph)) && final(node_graph).pending_position
            == old(node_graph).pending_position,
        r is Err ==> *final(current_genome) == *old(current_genome) && *final(node_graph) == *old(
            node_graph,
        ),
{
    let sel = current_genome.selected_mode_index;
    if sel < 0 {
        return Err(RemoveModeError::OutOfRange);
    }
    match current_genome.remove_mode(sel as usize) {
        Ok(()) => {
            node_graph.mark_for_rebuild();
            Ok(())
        },
        Err(e) => Err(e),
    }
}

/// Points one child slot of a mode at another mode from the mode form: as
/// `set_child_mode`, and the graph is asked to rebuild when the edit goes
/// through.
pub fn set_child_mode_with_graph<P>(
    current_genome: &mut CurrentGenome<P>,
    node_graph: &mut GenomeNodeGraph,
    mode: usize,
    is_child_a: bool,
    target: usize,
) -> (r: bool)
    requires
        old(current_genome).wf(),
    ensures
        final(current_genome).wf(),
        r == (mode < old(current_genome).genome.modes.len() && target < old(
            current_genome,
        ).genome.modes.len()),
        r ==> final(current_genome).genome.modes@ == set_child(
            old(current_genome).genome.modes@,
            mode as int,
            is_child_a,
            target as i32,
        ) && graph_marked(*old(node_graph), *final(node_graph)) && final(node_graph).pending_position
            == old(node_graph).pending_position,
        !r ==> *final(current_genome) == *old(current_genome) && *final(node_graph) == *old(node_graph),
        final(current_genome).genome.initial_mode == old(current_genome).genome.initial_mode,
        final(current_genome).genome.name == old(current_genome).genome.name,
        final(current_genome).selected_mode_index == old(current_genome).selected_mode_index,
        final(current_genome).show_mode_glow == old(current_genome).show_mode_glow,
        final(current_genome).show_genome_graph == old(current_genome).show_genome_graph,
{
    if mode >= current_genome.genome.modes.len() || target >= current_genome.genome.modes.len() {
        return false;
    }
    let ok = current_genome.set_child_mode(mode, is_child_a, target);
    node_graph.mark_for_rebuild();
    ok
}

/// Removes the mode of node `node_id`, as `remove_mode`, and asks the graph
/// to rebuild; a refused removal changes nothing.
pub fn remove_mode_for_node<P>(
    current_genome: &mut CurrentGenome<P>,
    node_graph: &mut GenomeNodeGraph,
    node_id: i32,
) -> (r: Result<(), RemoveModeError>)
    requires
        old(current_genome).wf(),
    ensures
        final(current_genome).wf(),
        r == match lookup(old(node_graph).node_to_mode@, node_id) {
            None => Err(RemoveModeError::UnknownNode),
            Some(m) => removal_result(old(current_genome).genome, m as int),
        },
        r is Ok ==> mode_removed(
            *old(current_genome),
            *final(current_genome),
            old(node_graph).node_to_mode@[node_id] as int,
        ) && graph_marked(*old(node_graph), *final(node_graph)) && final(node_graph).pending_position
            == old(node_graph).pending_position,
        r is Err ==> *final(current_genome) == *old(current_genome) && *final(node_graph) == *old(
            node_graph,
        ),
{
    match node_graph.get_mode_for_node(node_id) {
        None => Err(RemoveModeError::UnknownNode),
        Some(mode_index) => {
            match current_genome.remove_mode(mode_index) {
                Ok(()) => {
                    node_graph.mark_for_rebuild();
                    Ok(())
                },
                Err(e) => Err(e),
            }
        },
    }
}

/// Selects the mode of node `node_id`; false when the node stands for no
/// mode of the genome.
pub fn select_mode_for_node<P>(
    current_genome: &mut CurrentGenome<P>,
    node_graph: &GenomeNodeGraph,
    node_id: i32,
) -> (r: bool)
    requires
        old(current_genome).wf(),
    ensures
        final(current_genome).wf(),
        r == match lookup(node_graph.node_to_mode@, node_id) {
            Some(m) => m < old(current_genome).genome.modes.len(),
            None => false,
        },
        r ==> final(current_genome).selected_mode_index == node_graph.node_to_mode@[node_id],
        !r ==> final(current_genome).selected_mode_index == old(current_genome).selected_mode_index,
        final(current_genome).genome == old(current_genome).genome,
{
    match node_graph.get_mode_for_node(node_id) {
        Some(mode_index) => current_genome.select_mode(mode_index),
        None => false,
    }
}

/// Brings the graph up to date before it is drawn: one rebuild when one is
/// asked for (which lays the nodes out if still needed), else the grid
/// layout when only that is asked for. Afterwards neither is pending.
pub fn refresh_node_graph<P>(genome: &GenomeData<P>, node_graph: &mut GenomeNodeGraph)
    requires
        old(node_graph).wf(),
        genome.modes.len() <= i32::MAX,
    ensures
        final(node_graph).wf(),
        !final(node_graph).needs_rebuild,
        !final(node_graph).needs_layout,
        old(node_graph).needs_rebuild ==> {
            let n = genome.modes.len() as int;
            &&& final(node_graph).mode_to_node@ == Map::new(|m: usize| m < n, |m: usize| m as i32)
            &&& final(node_graph).node_to_mode@ == rebuilt_node_modes(n)
            &&& final(node_graph).node_to_name@ == rebuilt_names(genome.modes@)
            &&& final(node_graph).node_positions@ == rebuild_positions(
                old(node_graph).node_to_name@,
                old(node_graph).node_positions@,
                old(node_graph).next_node_id as int,
                old(node_graph).pending_position,
                old(node_graph).needs_layout,
                genome.modes@,
            )
            &&& final(node_graph).links@ == derived_links(genome.modes@, n)
            &&& final(node_graph).next_node_id == n
            &&& final(node_graph).next_link_id == 0
            &&& final(node_graph).pending_position is None
        },
        !old(node_graph).needs_rebuild ==> {
            &&& final(node_graph).links == old(node_graph).links
            &&& final(node_graph).mode_to_node == old(node_graph).mode_to_node
            &&& final(node_graph).node_to_mode == old(node_graph).node_to_mode
            &&& final(node_graph).node_to_name == old(node_graph).node_to_name
            &&& final(node_graph).next_node_id == old(node_graph).next_node_id
            &&& final(node_graph).pending_position == old(node_graph).pending_position
            &&& final(node_graph).node_positions@ == if old(node_graph).needs_layout {
                old(node_graph).node_positions@.union_prefer_right(
                    grid_layout(old(node_graph).node_to_mode@, old(node_graph).next_node_id as int),
                )
            } else {
                old(node_graph).node_positions@
            }
        },
{
    if node_graph.needs_rebuild {
        rebuild_node_graph(genome, node_graph);
    } else if node_graph.needs_layout {
        node_graph.calculate_grid_layout();
    }
}

} // verus!
