use vstd::prelude::*;
use crate::genome_data::{GenomeData, ModeSettings};
use crate::node_graph::{grid_layout, lookup, without_slot, GenomeNodeGraph, Link, Position};

verus! {

broadcast use vstd::std_specs::hash::group_hash_axioms;

/// The position kept under `name` among the nodes below `end`: that of the
/// highest node id with this name and a position.
pub open spec fn saved_position(
    names: Map<i32, String>,
    pos: Map<i32, Position>,
    name: Seq<char>,
    end: int,
) -> Option<Position>
    decreases end,
{
    if end <= 0 {
        None
    } else {
        let id = (end - 1) as i32;
        if names.contains_key(id) && pos.contains_key(id) && names[id]@ == name {
            Some(pos[id])
        } else {
            saved_position(names, pos, name, end - 1)
        }
    }
}

/// The (name, position) pairs of the named, placed nodes below `end`, in
/// order of node id.
pub open spec fn position_snapshot(names: Map<i32, String>, pos: Map<i32, Position>, end: int) -> Seq<
    (Seq<char>, Position),
>
    decreases end,
{
    if end <= 0 {
        Seq::empty()
    } else {
        let prev = position_snapshot(names, pos, end - 1);
        let id = (end - 1) as i32;
        if names.contains_key(id) && pos.contains_key(id) {
            prev.push((names[id]@, pos[id]))
        } else {
            prev
        }
    }
}

/// The position of the last pair of `snap` named `name`.
pub open spec fn find_last(snap: Seq<(Seq<char>, Position)>, name: Seq<char>) -> Option<Position>
    decreases snap.len(),
{
    if snap.len() == 0 {
        None
    } else if snap.last().0 == name {
        Some(snap.last().1)
    } else {
        find_last(snap.drop_last(), name)
    }
}

/// Whether a rebuild applies the spawn point `pending` to a genome of `n`
/// modes.
pub open spec fn pending_applies(pending: Option<(usize, i64, i64)>, n: int) -> bool {
    match pending {
        Some(p) => p.0 < n,
        None => false,
    }
}

/// The position that a rebuild gives to the node of mode `i`: the spawn
/// point if it is meant for `i`, else the position saved under its name.
pub open spec fn rebuilt_position<P>(
    names: Map<i32, String>,
    pos: Map<i32, Position>,
    next: int,
    pending: Option<(usize, i64, i64)>,
    modes: Seq<ModeSettings<P>>,
    i: int,
) -> Option<Position> {
    match pending {
        Some(p) => if p.0 == i {
            Some((p.1, p.2))
        } else {
            saved_position(names, pos, modes[i].name@, next)
        },
        None => saved_position(names, pos, modes[i].name@, next),
    }
}

pub open spec fn position_or_origin(o: Option<Position>) -> Position {
    match o {
        Some(p) => p,
        None => (0, 0),
    }
}

/// All node positions after a rebuild; node `i` is the node of mode `i`.
pub open spec fn rebuilt_positions<P>(
    names: Map<i32, String>,
    pos: Map<i32, Position>,
    next: int,
    pending: Option<(usize, i64, i64)>,
    modes: Seq<ModeSettings<P>>,
) -> Map<i32, Position> {
    Map::new(
        |id: i32| 0 <= id < modes.len() && rebuilt_position(names, pos, next, pending, modes, id as int) is Some,
        |id: i32| position_or_origin(rebuilt_position(names, pos, next, pending, modes, id as int)),
    )
}

/// Whether some mode below `upto` finds a position saved under its name.
pub open spec fn any_restored<P>(
    names: Map<i32, String>,
    pos: Map<i32, Position>,
    next: int,
    modes: Seq<ModeSettings<P>>,
    upto: int,
) -> bool {
    exists|i: int| 0 <= i < upto && #[trigger] saved_position(names, pos, modes[i].name@, next) is Some
}

/// The node names after a rebuild: node `i` carries the name of mode `i`.
pub open spec fn rebuilt_names<P>(modes: Seq<ModeSettings<P>>) -> Map<i32, String> {
    Map::new(|id: i32| 0 <= id < modes.len(), |id: i32| modes[id as int].name)
}

/// The links derived from the child references of the modes below `upto`,
/// parent by parent, child A before child B. A reference to the mode itself,
/// or one out of range, draws no link.
pub open spec fn derived_links<P>(modes: Seq<ModeSettings<P>>, upto: int) -> Seq<Link>
    decreases upto,
{
    if upto <= 0 {
        Seq::empty()
    } else {
        let i = upto - 1;
        let m = modes[i];
        let n = modes.len();
        let prev = derived_links(modes, upto - 1);
        let with_a = if 0 <= m.child_a_mode < n && m.child_a_mode != i {
            prev.push((i as i32, m.child_a_mode, true))
        } else {
            prev
        };
        if 0 <= m.child_b_mode < n && m.child_b_mode != i {
            with_a.push((i as i32, m.child_b_mode, false))
        } else {
            with_a
        }
    }
}

proof fn lemma_snapshot_find(names: Map<i32, String>, pos: Map<i32, Position>, name: Seq<char>, end: int)
    ensures
        find_last(position_snapshot(names, pos, end), name) == saved_position(names, pos, name, end),
    decreases end,
{
    if end > 0 {
        lemma_snapshot_find(names, pos, name, end - 1);
        let prev = position_snapshot(names, pos, end - 1);
        let id = (end - 1) as i32;
        if names.contains_key(id) && pos.contains_key(id) {
            assert(prev.push((names[id]@, pos[id])).drop_last() =~= prev);
        }
    }
}

proof fn lemma_without_absent_slot(links: Seq<Link>, from: i32, is_child_a: bool)
    requires
        forall|k: int|
            0 <= k < links.len() ==> !((#[trigger] links[k]).0 == from && links[k].2 == is_child_a),
    ensures
        without_slot(links, from, is_child_a) == links,
    decreases links.len(),
{
    if links.len() > 0 {
        lemma_without_absent_slot(links.drop_last(), from, is_child_a);
        assert(links.drop_last().push(links.last()) =~= links);
    }
}

/// The snapshot of positions by name that a rebuild starts from.
fn snapshot_positions(graph: &GenomeNodeGraph) -> (r: Vec<(String, Position)>)
    requires
        graph.wf(),
    ensures
        r@.len() == position_snapshot(graph.node_to_name@, graph.node_positions@, graph.next_node_id as int).len(),
        forall|k: int|
            0 <= k < r@.len() ==> (#[trigger] r@[k]).0@ == position_snapshot(
                graph.node_to_name@,
                graph.node_positions@,
                graph.next_node_id as int,
            )[k].0 && r@[k].1 == position_snapshot(
                graph.node_to_name@,
                graph.node_positions@,
                graph.next_node_id as int,
            )[k].1,
{
    let ghost names = graph.node_to_name@;
    let ghost pos = graph.node_positions@;
    let mut snap: Vec<(String, Position)> = Vec::new();
    let end = graph.next_node_id;
    let mut id: i32 = 0;
    while id < end
        invariant
            0 <= id <= end,
            end == graph.next_node_id,
            names == graph.node_to_name@,
            pos == graph.node_positions@,
            snap@.len() == position_snapshot(names, pos, id as int).len(),
            forall|k: int|
                0 <= k < snap@.len() ==> (#[trigger] snap@[k]).0@ == position_snapshot(
                    names,
                    pos,
                    id as int,
                )[k].0 && snap@[k].1 == position_snapshot(names, pos, id as int)[k].1,
        decreases end - id,
    {
        match graph.node_to_name.get(&id) {
            Some(name) => {
                match graph.node_positions.get(&id) {
                    Some(p) => {
                        snap.push((name.clone(), *p));
                    },
                    None => {},
                }
            },
            None => {},
        }
        id = id + 1;
    }
    snap
}

/// The position saved under `name` in a snapshot.
fn find_saved(snap: &Vec<(String, Position)>, name: &String, spec_snap: Ghost<Seq<(Seq<char>, Position)>>) -> (r:
    Option<Position>)
    requires
        snap@.len() == spec_snap@.len(),
        forall|k: int|
            0 <= k < snap@.len() ==> (#[trigger] snap@[k]).0@ == spec_snap@[k].0 && snap@[k].1
                == spec_snap@[k].1,
    ensures
        r == find_last(spec_snap@, name@),
{
    let mut k: usize = snap.len();
    assert(spec_snap@.subrange(0, k as int) =~= spec_snap@);
    while k > 0
        invariant
            k <= snap@.len(),
            snap@.len() == spec_snap@.len(),
            forall|j: int|
                0 <= j < snap@.len() ==> (#[trigger] snap@[j]).0@ == spec_snap@[j].0 && snap@[j].1
                    == spec_snap@[j].1,
            find_last(spec_snap@, name@) == find_last(spec_snap@.subrange(0, k as int), name@),
        decreases k,
    {
        let ghost sub = spec_snap@.subrange(0, k as int);
        assert(sub.drop_last() =~= spec_snap@.subrange(0, k - 1));
        if snap[k - 1].0 == *name {
            assert(sub.last() == spec_snap@[k - 1]);
            return Some(snap[k - 1].1);
        }
        k = k - 1;
    }
    None
}

/// The node-to-mode map after a rebuild of a genome of `n` modes: node `i`
/// stands for mode `i`.
pub open spec fn rebuilt_node_modes(n: int) -> Map<i32, usize> {
    Map::new(|id: i32| 0 <= id < n, |id: i32| id as usize)
}

/// Whether a rebuild ends with the grid layout: one was asked for, and no
/// position was recovered and no spawn point applied.
pub open spec fn layout_runs<P>(
    names: Map<i32, String>,
    pos: Map<i32, Position>,
    next: int,
    pending: Option<(usize, i64, i64)>,
    needs_layout: bool,
    modes: Seq<ModeSettings<P>>,
) -> bool {
    needs_layout && !any_restored(names, pos, next, modes, modes.len() as int) && !pending_applies(
        pending,
        modes.len() as int,
    )
}

/// All node positions once a rebuild is complete: the recovered and spawn
/// positions, laid over the grid when the grid layout runs.
pub open spec fn rebuild_positions<P>(
    names: Map<i32, String>,
    pos: Map<i32, Position>,
    next: int,
    pending: Option<(usize, i64, i64)>,
    needs_layout: bool,
    modes: Seq<ModeSettings<P>>,
) -> Map<i32, Position> {
    let recovered = rebuilt_positions(names, pos, next, pending, modes);
    if layout_runs(names, pos, next, pending, needs_layout, modes) {
        recovered.union_prefer_right(grid_layout(rebuilt_node_modes(modes.len() as int), modes.len() as int))
    } else {
        recovered
    }
}

/// Regenerates the node graph from `genome`.
///
/// Positions are first kept by mode name; then every node, name, position
/// and link is dropped and node `i` is created for mode `i`. A node takes the
/// position kept under its mode's name, and the pending spawn point, if it is
/// meant for one of the modes, overrides that of its mode and is cleared. The
/// links follow the child references alone. Last, if a layout was asked for
/// and no position was recovered or applied, the grid layout places every
/// node. Both the rebuild and the layout request are then cleared.
pub fn rebuild_node_graph<P>(genome: &GenomeData<P>, node_graph: &mut GenomeNodeGraph)
    requires
        old(node_graph).wf(),
        genome.modes.len() <= i32::MAX,
    ensures
        final(node_graph).wf(),
        final(node_graph).next_node_id == genome.modes.len(),
        final(node_graph).mode_to_node@ == Map::new(
            |m: usize| m < genome.modes.len(),
            |m: usize| m as i32,
        ),
        final(node_graph).node_to_mode@ == rebuilt_node_modes(genome.modes.len() as int),
        final(node_graph).node_to_name@ == rebuilt_names(genome.modes@),
        final(node_graph).node_positions@ == rebuild_positions(
            old(node_graph).node_to_name@,
            old(node_graph).node_positions@,
            old(node_graph).next_node_id as int,
            old(node_graph).pending_position,
            old(node_graph).needs_layout,
            genome.modes@,
        ),
        final(node_graph).links@ == derived_links(genome.modes@, genome.modes.len() as int),
        final(node_graph).pending_position is None,
        !final(node_graph).needs_layout,
        !final(node_graph).needs_rebuild,
        final(node_graph).next_link_id == 0,
{
    let ghost names0 = node_graph.node_to_name@;
    let ghost pos0 = node_graph.node_positions@;
    let ghost next0 = node_graph.next_node_id as int;
    let ghost spec_snap = position_snapshot(names0, pos0, next0);
    let ghost modes = genome.modes@;
    let pending = node_graph.pending_position;
    let snap = snapshot_positions(node_graph);
    node_graph.clear();
    node_graph.pending_position = None;
    let n = genome.modes.len();
    let mut restored_any = false;
    let mut i: usize = 0;
    while i < n
        invariant
            node_graph.wf(),
            n == modes.len() == genome.modes@.len(),
            modes == genome.modes@,
            n <= i32::MAX,
            i <= n,
            node_graph.next_node_id == i,
            node_graph.mode_to_node@ == Map::new(|m: usize| m < i, |m: usize| m as i32),
            node_graph.node_to_mode@ == Map::new(|id: i32| 0 <= id < i, |id: i32| id as usize),
            node_graph.node_to_name@ == Map::new(|id: i32| 0 <= id < i, |id: i32| modes[id as int].name),
            node_graph.node_positions@ == rebuilt_positions(names0, pos0, next0, None, modes).restrict(
                Set::new(|id: i32| id < i),
            ),
            node_graph.links@.len() == 0,
            node_graph.next_link_id == 0,
            node_graph.pending_position is None,
            node_graph.needs_layout == old(node_graph).needs_layout,
            node_graph.needs_rebuild == old(node_graph).needs_rebuild,
            restored_any == any_restored(names0, pos0, next0, modes, i as int),
            snap@.len() == spec_snap.len(),
            spec_snap == position_snapshot(names0, pos0, next0),
            forall|k: int|
                0 <= k < snap@.len() ==> (#[trigger] snap@[k]).0@ == spec_snap[k].0 && snap@[k].1
                    == spec_snap[k].1,
        decreases n - i,
    {
        let node_id = node_graph.create_node(i);
        node_graph.node_to_name.insert(node_id, genome.modes[i].name.clone());
        let found = find_saved(&snap, &genome.modes[i].name, Ghost(spec_snap));
        proof {
            lemma_snapshot_find(names0, pos0, modes[i as int].name@, next0);
        }
        match found {
            Some(p) => {
                node_graph.node_positions.insert(node_id, p);
                restored_any = true;
            },
            None => {},
        }
        proof {
            assert(node_graph.mode_to_node@ =~= Map::new(|m: usize| m < i + 1, |m: usize| m as i32));
            assert(node_graph.node_to_mode@ =~= Map::new(
                |id: i32| 0 <= id < i + 1,
                |id: i32| id as usize,
            ));
            assert(node_graph.node_to_name@ =~= Map::new(
                |id: i32| 0 <= id < i + 1,
                |id: i32| modes[id as int].name,
            ));
            assert(node_graph.node_positions@ =~= rebuilt_positions(names0, pos0, next0, None, modes).restrict(
                Set::new(|id: i32| id < i + 1),
            ));
            if !restored_any {
                assert forall|j: int| 0 <= j < i + 1 implies !(#[trigger] saved_position(
                    names0,
                    pos0,
                    modes[j].name@,
                    next0,
                ) is Some) by {}
            }
        }
        i = i + 1;
    }
    if restored_any {
        node_graph.needs_layout = false;
    }
    proof {
        assert(rebuilt_positions(names0, pos0, next0, None, modes).restrict(Set::new(|id: i32| id < n))
            =~= rebuilt_positions(names0, pos0, next0, None, modes));
    }
    match pending {
        Some(p) => {
            match node_graph.get_node_for_mode(p.0) {
                Some(node_id) => {
                    node_graph.set_node_position(node_id, p.1, p.2);
                    node_graph.needs_layout = false;
                },
                None => {},
            }
        },
        None => {},
    }
    proof {
        assert(node_graph.node_positions@ =~= rebuilt_positions(names0, pos0, next0, pending, modes));
    }
    let mut i: usize = 0;
    while i < n
        invariant
            node_graph.wf(),
            n == modes.len() == genome.modes@.len(),
            modes == genome.modes@,
            n <= i32::MAX,
            i <= n,
            node_graph.next_node_id == n,
            node_graph.mode_to_node@ == Map::new(|m: usize| m < n, |m: usize| m as i32),
            node_graph.node_to_mode@ == Map::new(|id: i32| 0 <= id < n, |id: i32| id as usize),
            node_graph.node_to_name@ == rebuilt_names(modes),
            node_graph.node_positions@ == rebuilt_positions(names0, pos0, next0, pending, modes),
            node_graph.links@ == derived_links(modes, i as int),
            forall|k: int| 0 <= k < node_graph.links@.len() ==> (#[trigger] node_graph.links@[k]).0 < i,
            node_graph.next_link_id == 0,
            node_graph.pending_position is None,
            node_graph.needs_layout == (if any_restored(names0, pos0, next0, modes, n as int)
                || pending_applies(pending, n as int) {
                false
            } else {
                old(node_graph).needs_layout
            }),
            node_graph.needs_rebuild == old(node_graph).needs_rebuild,
        decreases n - i,
    {
        let parent = i as i32;
        let a = genome.modes[i].child_a_mode;
        let b = genome.modes[i].child_b_mode;
        if 0 <= a && (a as usize) < n && a != parent {
            proof {
                lemma_without_absent_slot(node_graph.links@, parent, true);
            }
            node_graph.add_link(parent, a, true);
        }
        if 0 <= b && (b as usize) < n && b != parent {
            proof {
                lemma_without_absent_slot(node_graph.links@, parent, false);
            }
            node_graph.add_link(parent, b, false);
        }
        i = i + 1;
    }
    proof {
        assert(node_graph.node_to_name@ =~= rebuilt_names(modes));
        assert(node_graph.node_to_mode@ =~= rebuilt_node_modes(n as int));
    }
    node_graph.needs_rebuild = false;
    if node_graph.needs_layout {
        node_graph.calculate_grid_layout();
    }
}

/// No two modes share a name.
pub open spec fn names_distinct<P>(modes: Seq<ModeSettings<P>>) -> bool {
    forall|i: int, j: int|
        0 <= i < modes.len() && 0 <= j < modes.len() && i != j ==> #[trigger] modes[i].name@
            != #[trigger] modes[j].name@
}

proof fn lemma_saved_uniform(
    names: Map<i32, String>,
    pos: Map<i32, Position>,
    name: Seq<char>,
    end: int,
    v: Option<Position>,
)
    requires
        end <= i32::MAX,
        forall|k: int|
            0 <= k < end && names.contains_key(k as i32) && names[k as i32]@ == name ==> #[trigger] lookup(
                pos,
                k as i32,
            ) == v,
        v is Some ==> exists|k: int|
            0 <= k < end && names.contains_key(k as i32) && #[trigger] names[k as i32]@ == name,
    ensures
        saved_position(names, pos, name, end) == v,
    decreases end,
{
    if end > 0 {
        let id = (end - 1) as i32;
        if names.contains_key(id) && names[id]@ == name {
            assert(lookup(pos, ((end - 1) as int) as i32) == v);
            if !pos.contains_key(id) {
                lemma_saved_uniform(names, pos, name, end - 1, v);
            }
        } else {
            if v is Some {
                let k = choose|k: int|
                    0 <= k < end && names.contains_key(k as i32) && #[trigger] names[k as i32]@ == name;
                assert(k < end - 1);
            }
            lemma_saved_uniform(names, pos, name, end - 1, v);
        }
    }
}

/// A position map on the nodes of a rebuilt graph, on which nodes of
/// equal names agree, is recovered unchanged by a rebuild.
proof fn lemma_rebuild_fixed_point<P>(modes: Seq<ModeSettings<P>>, once: Map<i32, Position>)
    requires
        modes.len() <= i32::MAX,
        forall|id: i32| #[trigger] once.contains_key(id) ==> 0 <= id < modes.len(),
        forall|i: int, j: int|
            0 <= i < modes.len() && 0 <= j < modes.len() && modes[i].name@ == modes[j].name@ ==> lookup(
                once,
                i as i32,
            ) == lookup(once, j as i32),
    ensures
        rebuilt_positions(rebuilt_names(modes), once, modes.len() as int, None, modes) == once,
{
    let n1 = rebuilt_names(modes);
    let twice = rebuilt_positions(n1, once, modes.len() as int, None, modes);
    assert forall|id: i32| 0 <= id < modes.len() implies rebuilt_position(
        n1,
        once,
        modes.len() as int,
        None,
        modes,
        id as int,
    ) == lookup(once, id) by {
        let name = modes[id as int].name@;
        let v = lookup(once, id);
        assert forall|k: int|
            0 <= k < modes.len() && n1.contains_key(k as i32) && n1[k as i32]@ == name implies #[trigger] lookup(
            once,
            k as i32,
        ) == v by {
            assert(n1[k as i32] == modes[k].name);
            assert(lookup(once, k as i32) == lookup(once, (id as int) as i32));
        }
        assert(n1.contains_key(id) && n1[id]@ == name);
        assert(n1[(id as int) as i32]@ == name);
        lemma_saved_uniform(n1, once, name, modes.len() as int, v);
    }
    assert forall|id: i32| #[trigger] twice.contains_key(id) == once.contains_key(id) by {
        if 0 <= id < modes.len() {
            assert(rebuilt_position(n1, once, modes.len() as int, None, modes, id as int) == lookup(once, id));
        }
    }
    assert forall|id: i32| #[trigger] twice.contains_key(id) implies twice[id] == once[id] by {
        assert(rebuilt_position(n1, once, modes.len() as int, None, modes, id as int) == lookup(once, id));
    }
    assert(twice =~= once);
}

/// Rebuilding twice with no genome change in between leaves every node
/// where a single rebuild put it. (The links and node maps a rebuild derives
/// depend on the genome alone, so they agree as well, and the first rebuild
/// leaves no layout request for the second.) This holds whenever the modes'
/// names are pairwise distinct, or no spawn point is pending and the first
/// rebuild runs no grid layout: otherwise two modes of one name may hold
/// different positions that the second rebuild merges.
pub proof fn lemma_rebuild_idempotent<P>(
    names: Map<i32, String>,
    pos: Map<i32, Position>,
    next: int,
    pending: Option<(usize, i64, i64)>,
    needs_layout: bool,
    modes: Seq<ModeSettings<P>>,
)
    requires
        modes.len() <= i32::MAX,
        names_distinct(modes) || (pending is None && !layout_runs(names, pos, next, pending, needs_layout, modes)),
    ensures
        rebuild_positions(
            rebuilt_names(modes),
            rebuild_positions(names, pos, next, pending, needs_layout, modes),
            modes.len() as int,
            None,
            false,
            modes,
        ) == rebuild_positions(names, pos, next, pending, needs_layout, modes),
{
    let once = rebuild_positions(names, pos, next, pending, needs_layout, modes);
    let recovered = rebuilt_positions(names, pos, next, pending, modes);
    let grid = grid_layout(rebuilt_node_modes(modes.len() as int), modes.len() as int);
    assert forall|id: i32| #[trigger] once.contains_key(id) implies 0 <= id < modes.len() by {
        if layout_runs(names, pos, next, pending, needs_layout, modes) && grid.contains_key(id) {
            assert(rebuilt_node_modes(modes.len() as int).contains_key(id));
        }
    }
    assert forall|i: int, j: int|
        0 <= i < modes.len() && 0 <= j < modes.len() && modes[i].name@ == modes[j].name@ implies lookup(
        once,
        i as i32,
    ) == lookup(once, j as i32) by {
        if i != j {
            assert(!names_distinct(modes));
            assert(!layout_runs(names, pos, next, pending, needs_layout, modes));
            assert(once == recovered);
            assert(rebuilt_position(names, pos, next, pending, modes, i) == rebuilt_position(
                names,
                pos,
                next,
                pending,
                modes,
                j,
            ));
            assert(recovered.contains_key(i as i32) == recovered.contains_key(j as i32));
        }
    }
    lemma_rebuild_fixed_point(modes, once);
}

} // verus!
