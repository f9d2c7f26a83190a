use vstd::prelude::*;
use std::collections::HashMap;

verus! {

broadcast use vstd::std_specs::hash::group_hash_axioms;

/// A parent-to-child link: parent node, child node, and whether it is the
/// parent's child-A slot (else child-B).
pub type Link = (i32, i32, bool);

/// A node position in editor space.
pub type Position = (i64, i64);

/// The node-graph view of a genome. It is derived from the genome and can be
/// rebuilt from it at any time; only the positions carry state of their own,
/// and they are matched to modes by name across rebuilds.
pub struct GenomeNodeGraph {
    /// Node of each mode index.
    pub mode_to_node: HashMap<usize, i32>,
    /// Mode index of each node.
    pub node_to_mode: HashMap<i32, usize>,
    /// Name of the mode each node was created for.
    pub node_to_name: HashMap<i32, String>,
    /// Position of each placed node.
    pub node_positions: HashMap<i32, Position>,
    /// The identifier the next node receives.
    pub next_node_id: i32,
    /// Parent-to-child links; at most one per parent and slot.
    pub links: Vec<Link>,
    pub next_link_id: i32,
    /// The genome changed shape and the graph must be rebuilt.
    pub needs_rebuild: bool,
    /// Nodes still wait for the fallback grid layout.
    pub needs_layout: bool,
    /// A spawn point (mode index, x, y) for the node of a mode about to be
    /// created; the next rebuild applies it and clears it.
    pub pending_position: Option<(usize, i64, i64)>,
}

/// `links` without the link of `from`'s `is_child_a` slot.
pub open spec fn without_slot(links: Seq<Link>, from: i32, is_child_a: bool) -> Seq<Link>
    decreases links.len(),
{
    if links.len() == 0 {
        links
    } else {
        let rest = without_slot(links.drop_last(), from, is_child_a);
        let l = links.last();
        if l.0 == from && l.2 == is_child_a {
            rest
        } else {
            rest.push(l)
        }
    }
}

/// `links` without every link that starts or ends at `node`.
pub open spec fn without_node(links: Seq<Link>, node: i32) -> Seq<Link>
    decreases links.len(),
{
    if links.len() == 0 {
        links
    } else {
        let rest = without_node(links.drop_last(), node);
        let l = links.last();
        if l.0 == node || l.1 == node {
            rest
        } else {
            rest.push(l)
        }
    }
}

/// Whether node `j` comes before node `n` when nodes are ordered by mode
/// index, ties broken by node id.
pub open spec fn placed_before(m: Map<i32, usize>, j: i32, n: i32) -> bool {
    m.contains_key(j) && (m[j] < m[n] || (m[j] == m[n] && j < n))
}

/// How many of the nodes with ids below `end` come before node `n`.
pub open spec fn node_rank(m: Map<i32, usize>, n: i32, end: int) -> nat
    decreases end,
{
    if end <= 0 {
        0
    } else {
        node_rank(m, n, end - 1) + if placed_before(m, (end - 1) as i32, n) {
            1nat
        } else {
            0nat
        }
    }
}

/// The grid cell of the node at `rank`: four columns, 250 apart, rows 200
/// apart, starting at (50, 50).
pub open spec fn grid_position(rank: int) -> Position {
    ((50 + (rank % 4) * 250) as i64, (50 + (rank / 4) * 200) as i64)
}

/// The positions the grid layout gives to the nodes of `m`.
pub open spec fn grid_layout(m: Map<i32, usize>, next: int) -> Map<i32, Position> {
    Map::new(|n: i32| m.contains_key(n), |n: i32| grid_position(node_rank(m, n, next) as int))
}

pub open spec fn lookup<K, V>(m: Map<K, V>, k: K) -> Option<V> {
    if m.contains_key(k) {
        Some(m[k])
    } else {
        None
    }
}

impl GenomeNodeGraph {
    /// Node ids in use lie below `next_node_id`.
    pub open spec fn wf(&self) -> bool {
        &&& 0 <= self.next_node_id
        &&& forall|id: i32|
            self.node_to_mode@.contains_key(id) ==> 0 <= id < self.next_node_id
        &&& forall|id: i32|
            self.node_to_name@.contains_key(id) ==> 0 <= id < self.next_node_id
    }

    /// An empty graph that waits for its first layout.
    pub fn new() -> (r: Self)
        ensures
            r.wf(),
            r.mode_to_node@.is_empty(),
            r.node_to_mode@.is_empty(),
            r.node_to_name@.is_empty(),
            r.node_positions@.is_empty(),
            r.links@.len() == 0,
            r.next_node_id == 0,
            r.next_link_id == 0,
            !r.needs_rebuild,
            r.needs_layout,
            r.pending_position is None,
    {
        GenomeNodeGraph {
            mode_to_node: HashMap::new(),
            node_to_mode: HashMap::new(),
            node_to_name: HashMap::new(),
            node_positions: HashMap::new(),
            next_node_id: 0,
            links: Vec::new(),
            next_link_id: 0,
            needs_rebuild: false,
            needs_layout: true,
            pending_position: None,
        }
    }

    /// Allocates the next node id for `mode_index`; no position is set.
    pub fn create_node(&mut self, mode_index: usize) -> (r: i32)
        requires
            old(self).wf(),
            old(self).next_node_id < i32::MAX,
        ensures
            final(self).wf(),
            r == old(self).next_node_id,
            final(self).next_node_id == old(self).next_node_id + 1,
            final(self).mode_to_node@ == old(self).mode_to_node@.insert(mode_index, r),
            final(self).node_to_mode@ == old(self).node_to_mode@.insert(r, mode_index),
            final(self).node_to_name == old(self).node_to_name,
            final(self).node_positions == old(self).node_positions,
            final(self).links == old(self).links,
            final(self).next_link_id == old(self).next_link_id,
            final(self).needs_rebuild == old(self).needs_rebuild,
            final(self).needs_layout == old(self).needs_layout,
            final(self).pending_position == old(self).pending_position,
    {
        let node_id = self.next_node_id;
        self.next_node_id = self.next_node_id + 1;
        self.mode_to_node.insert(mode_index, node_id);
        self.node_to_mode.insert(node_id, mode_index);
        node_id
    }

    /// Removes a node from the mode maps and drops every link that starts or
    /// ends at it.
    pub fn remove_node(&mut self, node_id: i32)
        requires
            old(self).wf(),
        ensures
            final(self).wf(),
            final(self).node_to_mode@ == old(self).node_to_mode@.remove(node_id),
            final(self).mode_to_node@ == (if old(self).node_to_mode@.contains_key(node_id) {
                old(self).mode_to_node@.remove(old(self).node_to_mode@[node_id])
            } else {
                old(self).mode_to_node@
            }),
            final(self).links@ == without_node(old(self).links@, node_id),
            final(self).node_to_name == old(self).node_to_name,
            final(self).node_positions == old(self).node_positions,
            final(self).next_node_id == old(self).next_node_id,
            final(self).next_link_id == old(self).next_link_id,
            final(self).needs_rebuild == old(self).needs_rebuild,
            final(self).needs_layout == old(self).needs_layout,
            final(self).pending_position == old(self).pending_position,
    {
        match self.node_to_mode.remove(&node_id) {
            Some(mode_index) => {
                self.mode_to_node.remove(&mode_index);
            },
            None => {},
        }
        let mut kept: Vec<Link> = Vec::new();
        let mut i: usize = 0;
        while i < self.links.len()
            invariant
                i <= self.links@.len(),
                self.links == old(self).links,
                kept@ == without_node(self.links@.subrange(0, i as int), node_id),
            decreases self.links@.len() - i,
        {
            let l = self.links[i];
            assert(self.links@.subrange(0, i + 1).drop_last() =~= self.links@.subrange(0, i as int));
            if l.0 != node_id && l.1 != node_id {
                kept.push(l);
            }
            i = i + 1;
        }
        assert(self.links@.subrange(0, self.links@.len() as int) =~= self.links@);
        self.links = kept;
    }

    /// Links `from_node`'s child slot to `to_node`, replacing whatever link
    /// that slot had: each parent keeps at most one child-A and one child-B
    /// link.
    pub fn add_link(&mut self, from_node: i32, to_node: i32, is_child_a: bool)
        requires
            old(self).wf(),
        ensures
            final(self).wf(),
            final(self).links@ == without_slot(old(self).links@, from_node, is_child_a).push(
                (from_node, to_node, is_child_a),
            ),
            final(self).mode_to_node == old(self).mode_to_node,
            final(self).node_to_mode == old(self).node_to_mode,
            final(self).node_to_name == old(self).node_to_name,
            final(self).node_positions == old(self).node_positions,
            final(self).next_node_id == old(self).next_node_id,
            final(self).next_link_id == old(self).next_link_id,
            final(self).needs_rebuild == old(self).needs_rebuild,
            final(self).needs_layout == old(self).needs_layout,
            final(self).pending_position == old(self).pending_position,
    {
        let mut kept: Vec<Link> = Vec::new();
        let mut i: usize = 0;
        while i < self.links.len()
            invariant
                i <= self.links@.len(),
                self.links == old(self).links,
                kept@ == without_slot(self.links@.subrange(0, i as int), from_node, is_child_a),
            decreases self.links@.len() - i,
        {
            let l = self.links[i];
            assert(self.links@.subrange(0, i + 1).drop_last() =~= self.links@.subrange(0, i as int));
            if !(l.0 == from_node && l.2 == is_child_a) {
                kept.push(l);
            }
            i = i + 1;
        }
        assert(self.links@.subrange(0, self.links@.len() as int) =~= self.links@);
        kept.push((from_node, to_node, is_child_a));
        self.links = kept;
    }

    /// The node of a mode index, if it has one.
    pub fn get_node_for_mode(&self, mode_index: usize) -> (r: Option<i32>)
        ensures
            r == lookup(self.mode_to_node@, mode_index),
    {
        match self.mode_to_node.get(&mode_index) {
            Some(n) => Some(*n),
            None => None,
        }
    }

    /// The mode index of a node, if it has one.
    pub fn get_mode_for_node(&self, node_id: i32) -> (r: Option<usize>)
        ensures
            r == lookup(self.node_to_mode@, node_id),
    {
        match self.node_to_mode.get(&node_id) {
            Some(m) => Some(*m),
            None => None,
        }
    }

    /// Forgets every node, name, position and link, and restarts the id
    /// counters; the flags and the pending spawn point stay.
    pub fn clear(&mut self)
        ensures
            final(self).wf(),
            final(self).mode_to_node@.is_empty(),
            final(self).node_to_mode@.is_empty(),
            final(self).node_to_name@.is_empty(),
            final(self).node_positions@.is_empty(),
            final(self).links@.len() == 0,
            final(self).next_node_id == 0,
            final(self).next_link_id == 0,
            final(self).needs_rebuild == old(self).needs_rebuild,
            final(self).needs_layout == old(self).needs_layout,
            final(self).pending_position == old(self).pending_position,
    {
        self.mode_to_node.clear();
        self.node_to_mode.clear();
        self.node_to_name.clear();
        self.node_positions.clear();
        self.links.clear();
        self.next_node_id = 0;
        self.next_link_id = 0;
    }

    /// Asks for a rebuild, and for a layout unless the rebuild recovers
    /// positions.
    pub fn mark_for_rebuild(&mut self)
        ensures
            final(self).needs_rebuild,
            final(self).needs_layout,
            final(self).mode_to_node == old(self).mode_to_node,
            final(self).node_to_mode == old(self).node_to_mode,
            final(self).node_to_name == old(self).node_to_name,
            final(self).node_positions == old(self).node_positions,
            final(self).next_node_id == old(self).next_node_id,
            final(self).links == old(self).links,
            final(self).next_link_id == old(self).next_link_id,
            final(self).pending_position == old(self).pending_position,
    {
        self.needs_rebuild = true;
        self.needs_layout = true;
    }

    /// Places every node on the fallback grid, in order of mode index (ties
    /// by node id); positions of nodes without a mode stay.
    pub fn calculate_grid_layout(&mut self)
        requires
            old(self).wf(),
        ensures
            final(self).wf(),
            final(self).node_positions@ == old(self).node_positions@.union_prefer_right(
                grid_layout(old(self).node_to_mode@, old(self).next_node_id as int),
            ),
            !final(self).needs_layout,
            final(self).mode_to_node == old(self).mode_to_node,
            final(self).node_to_mode == old(self).node_to_mode,
            final(self).node_to_name == old(self).node_to_name,
            final(self).next_node_id == old(self).next_node_id,
            final(self).links == old(self).links,
            final(self).next_link_id == old(self).next_link_id,
            final(self).needs_rebuild == old(self).needs_rebuild,
            final(self).pending_position == old(self).pending_position,
    {
        let ghost m = self.node_to_mode@;
        let ghost next = self.next_node_id as int;
        let ghost layout = grid_layout(m, next);
        let end = self.next_node_id;
        let mut id: i32 = 0;
        while id < end
            invariant
                self.wf(),
                0 <= id <= end,
                end == next == self.next_node_id,
                m == self.node_to_mode@,
                layout == grid_layout(m, next),
                self.mode_to_node == old(self).mode_to_node,
                self.node_to_mode == old(self).node_to_mode,
                self.node_to_name == old(self).node_to_name,
                self.links == old(self).links,
                self.next_link_id == old(self).next_link_id,
                self.needs_rebuild == old(self).needs_rebuild,
                self.pending_position == old(self).pending_position,
                self.node_positions@ == old(self).node_positions@.union_prefer_right(
                    layout.restrict(Set::new(|n: i32| n < id)),
                ),
            decreases end - id,
        {
            match self.node_to_mode.get(&id) {
                Some(mine) => {
                    let mine = *mine;
                    let mut rank: u64 = 0;
                    let mut j: i32 = 0;
                    while j < end
                        invariant
                            0 <= j <= end,
                            end == next,
                            m == self.node_to_mode@,
                            m.contains_key(id),
                            mine == m[id],
                            rank == node_rank(m, id, j as int),
                            rank <= j,
                        decreases end - j,
                    {
                        match self.node_to_mode.get(&j) {
                            Some(theirs) => {
                                if *theirs < mine || (*theirs == mine && j < id) {
                                    rank = rank + 1;
                                }
                            },
                            None => {},
                        }
                        j = j + 1;
                    }
                    let col = (rank % 4) as i64;
                    let row = (rank / 4) as i64;
                    let x: i64 = 50 + col * 250;
                    let y: i64 = 50 + row * 200;
                    self.node_positions.insert(id, (x, y));
                },
                None => {},
            }
            proof {
                assert(self.node_positions@ =~= old(self).node_positions@.union_prefer_right(
                    layout.restrict(Set::new(|n: i32| n < id + 1)),
                ));
            }
            id = id + 1;
        }
        proof {
            assert(layout.restrict(Set::new(|n: i32| n < id)) =~= layout) by {
                assert forall|n: i32| layout.contains_key(n) implies n < id by {
                    assert(m.contains_key(n));
                }
            }
        }
        self.needs_layout = false;
    }

    /// The position of a node, if it has one.
    pub fn get_node_position(&self, node_id: i32) -> (r: Option<Position>)
        ensures
            r == lookup(self.node_positions@, node_id),
    {
        match self.node_positions.get(&node_id) {
            Some(p) => Some(*p),
            None => None,
        }
    }

    /// Places a node at (x, y).
    pub fn set_node_position(&mut self, node_id: i32, x: i64, y: i64)
        ensures
            final(self).node_positions@ == old(self).node_positions@.insert(node_id, (x, y)),
            final(self).mode_to_node == old(self).mode_to_node,
            final(self).node_to_mode == old(self).node_to_mode,
            final(self).node_to_name == old(self).node_to_name,
            final(self).next_node_id == old(self).next_node_id,
            final(self).links == old(self).links,
            final(self).next_link_id == old(self).next_link_id,
            final(self).needs_rebuild == old(self).needs_rebuild,
            final(self).needs_layout == old(self).needs_layout,
            final(self).pending_position == old(self).pending_position,
    {
        self.node_positions.insert(node_id, (x, y));
    }
}

impl Default for GenomeNodeGraph {
    /// An empty graph that waits for its first layout.
    fn default() -> (r: Self)
        ensures
            r.wf(),
            r.mode_to_node@.is_empty(),
            r.node_to_mode@.is_empty(),
            r.node_to_name@.is_empty(),
            r.node_positions@.is_empty(),
            r.links@.len() == 0,
            r.next_node_id == 0,
            !r.needs_rebuild,
            r.needs_layout,
            r.pending_position is None,
    {
        GenomeNodeGraph::new()
    }
}

proof fn lemma_without_slot_clears(links: Seq<Link>, from: i32, is_child_a: bool)
    ensures
        forall|k: int|
            0 <= k < without_slot(links, from, is_child_a).len() ==> !((#[trigger] without_slot(
                links,
                from,
                is_child_a,
            )[k]).0 == from && without_slot(links, from, is_child_a)[k].2 == is_child_a),
    decreases links.len(),
{
    if links.len() > 0 {
        lemma_without_slot_clears(links.drop_last(), from, is_child_a);
        let rest = without_slot(links.drop_last(), from, is_child_a);
        let l = links.last();
        if !(l.0 == from && l.2 == is_child_a) {
            assert forall|k: int| 0 <= k < rest.len() implies rest.push(l)[k] == rest[k] by {}
        }
    }
}

/// Linking a parent's child-A slot twice, first to `c1` then to `c2`, leaves
/// exactly one child-A link from that parent, and it points to `c2`.
pub proof fn lemma_add_link_upserts(links: Seq<Link>, p: i32, c1: i32, c2: i32)
    ensures
        ({
            let once = without_slot(links, p, true).push((p, c1, true));
            let twice = without_slot(once, p, true).push((p, c2, true));
            &&& twice.last() == (p, c2, true)
            &&& forall|k: int| 0 <= k < twice.len() - 1 ==> !((#[trigger] twice[k]).0 == p && twice[k].2)
        }),
{
    let once = without_slot(links, p, true).push((p, c1, true));
    lemma_without_slot_clears(once, p, true);
    let twice = without_slot(once, p, true).push((p, c2, true));
    assert forall|k: int| 0 <= k < twice.len() - 1 implies !((#[trigger] twice[k]).0 == p && twice[k].2) by {
        assert(twice[k] == without_slot(once, p, true)[k]);
    }
}

} // verus!
