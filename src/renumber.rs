use vstd::prelude::*;
use crate::genome_data::{
    genome_valid, inserted_modes, refs_in_range, removed_modes, shift_after_insert, initial_after_remove,
    source_after_insert, with_children, GenomeData, ModeSettings,
};

verus! {

/// Restores the references of `genome` after a mode was placed at
/// `insert_idx`: the new mode is made to refer to itself, every other
/// reference at or past `insert_idx` moves up by one, and so does the initial
/// mode.
pub fn update_mode_numbers_after_insert<P>(genome: &mut GenomeData<P>, insert_idx: usize)
    requires
        insert_idx < old(genome).modes.len() <= i32::MAX,
        0 <= old(genome).initial_mode < old(genome).modes.len() - 1,
        forall|i: int|
            #![trigger old(genome).modes[i]]
            0 <= i < old(genome).modes.len() && i != insert_idx ==> 0
                <= old(genome).modes[i].child_a_mode < old(genome).modes.len() - 1 && 0
                <= old(genome).modes[i].child_b_mode < old(genome).modes.len() - 1,
    ensures
        final(genome).name == old(genome).name,
        final(genome).modes.len() == old(genome).modes.len(),
        final(genome).modes[insert_idx as int] == with_children(
            old(genome).modes[insert_idx as int],
            insert_idx as i32,
            insert_idx as i32,
        ),
        forall|i: int|
            #![trigger final(genome).modes[i]]
            0 <= i < old(genome).modes.len() && i != insert_idx ==> final(genome).modes[i]
                == with_children(
                old(genome).modes[i],
                shift_after_insert(old(genome).modes[i].child_a_mode, insert_idx as int),
                shift_after_insert(old(genome).modes[i].child_b_mode, insert_idx as int),
            ),
        final(genome).initial_mode == shift_after_insert(old(genome).initial_mode, insert_idx as int),
{
    let n = genome.modes.len();
    let k = insert_idx as i32;
    let mut i: usize = 0;
    while i < n
        invariant
            n == genome.modes.len() == old(genome).modes.len(),
            n <= i32::MAX,
            insert_idx < n,
            k == insert_idx,
            i <= n,
            genome.name == old(genome).name,
            genome.initial_mode == old(genome).initial_mode,
            forall|j: int|
                #![trigger old(genome).modes[j]]
                0 <= j < n && j != insert_idx ==> 0 <= old(genome).modes[j].child_a_mode < n - 1
                    && 0 <= old(genome).modes[j].child_b_mode < n - 1,
            forall|j: int| i <= j < n ==> #[trigger] genome.modes[j] == old(genome).modes[j],
            forall|j: int|
                #![trigger genome.modes[j]]
                0 <= j < i && j == insert_idx ==> genome.modes[j] == with_children(
                    old(genome).modes[j],
                    k,
                    k,
                ),
            forall|j: int|
                #![trigger genome.modes[j]]
                0 <= j < i && j != insert_idx ==> genome.modes[j] == with_children(
                    old(genome).modes[j],
                    shift_after_insert(old(genome).modes[j].child_a_mode, insert_idx as int),
                    shift_after_insert(old(genome).modes[j].child_b_mode, insert_idx as int),
                ),
        decreases n - i,
    {
        if i == insert_idx {
            genome.modes[i].child_a_mode = k;
            genome.modes[i].child_b_mode = k;
        } else {
            assert(genome.modes[i as int] == old(genome).modes[i as int]);
            if genome.modes[i].child_a_mode >= k {
                genome.modes[i].child_a_mode = genome.modes[i].child_a_mode + 1;
            }
            if genome.modes[i].child_b_mode >= k {
                genome.modes[i].child_b_mode = genome.modes[i].child_b_mode + 1;
            }
        }
        i = i + 1;
    }
    if genome.initial_mode >= k {
        genome.initial_mode = genome.initial_mode + 1;
    }
}

impl<P> GenomeData<P> {
    /// Places `mode` at index `k` and renumbers every reference so that each
    /// still names the same mode; `mode` itself is made self-referential.
    pub fn insert_mode(&mut self, k: usize, mode: ModeSettings<P>)
        requires
            old(self).wf(),
            k <= old(self).modes.len() < i32::MAX,
        ensures
            final(self).wf(),
            final(self).name == old(self).name,
            final(self).modes@ == inserted_modes(old(self).modes@, k as int, mode),
            final(self).initial_mode == shift_after_insert(old(self).initial_mode, k as int),
    {
        let ghost before = self.modes@;
        self.modes.insert(k, mode);
        proof {
            assert forall|i: int| 0 <= i < self.modes.len() && i != k implies #[trigger] self.modes[i]
                == before[source_after_insert(i, k as int)] by {}
        }
        update_mode_numbers_after_insert(self, k);
        proof {
            let want = inserted_modes(before, k as int, mode);
            assert forall|i: int| 0 <= i < self.modes.len() implies #[trigger] self.modes@[i]
                == want[i] by {
                if i != k {
                    assert(self.modes[i] == self.modes@[i]);
                }
            }
            assert(self.modes@ =~= want);
            lemma_inserted_refs_in_range(before, k as int, mode);
        }
    }

    /// Removes the mode at `k`. References to it become self-references of
    /// the mode holding them, references past it move down by one, and an
    /// initial mode equal to `k` falls back to 0.
    pub fn remove_mode_at(&mut self, k: usize)
        requires
            old(self).wf(),
            k < old(self).modes.len(),
            old(self).modes.len() >= 2,
        ensures
            final(self).wf(),
            final(self).name == old(self).name,
            final(self).modes@ == removed_modes(old(self).modes@, k as int),
            final(self).initial_mode == initial_after_remove(old(self).initial_mode, k as int),
    {
        let ghost before = self.modes@;
        let _gone = self.modes.remove(k);
        let n = self.modes.len();
        let kk = k as i32;
        let mut i: usize = 0;
        while i < n
            invariant
                n == self.modes.len() == before.len() - 1,
                before.len() <= i32::MAX,
                k < before.len(),
                kk == k,
                i <= n,
                self.name == old(self).name,
                self.initial_mode == old(self).initial_mode,
                refs_in_range(before, before.len() as int),
                forall|j: int|
                    i <= j < n ==> #[trigger] self.modes[j] == (if j < k {
                        before[j]
                    } else {
                        before[j + 1]
                    }),
                forall|j: int|
                    0 <= j < i ==> #[trigger] self.modes@[j] == removed_modes(before, k as int)[j],
            decreases n - i,
        {
            let ghost o = self.modes[i as int];
            assert(0 <= o.child_a_mode < before.len() && 0 <= o.child_b_mode < before.len()) by {
                if i < k {
                    assert(before[i as int] == o);
                } else {
                    assert(before[i + 1] == o);
                }
            }
            let a = self.modes[i].child_a_mode;
            if a == kk {
                self.modes[i].child_a_mode = i as i32;
            } else if a > kk {
                self.modes[i].child_a_mode = a - 1;
            }
            let b = self.modes[i].child_b_mode;
            if b == kk {
                self.modes[i].child_b_mode = i as i32;
            } else if b > kk {
                self.modes[i].child_b_mode = b - 1;
            }
            assert(self.modes@[i as int] == removed_modes(before, k as int)[i as int]);
            i = i + 1;
        }
        if self.initial_mode == kk {
            self.initial_mode = 0;
        } else if self.initial_mode > kk {
            self.initial_mode = self.initial_mode - 1;
        }
        proof {
            assert(self.modes@ =~= removed_modes(before, k as int));
            lemma_removed_refs_in_range(before, k as int);
        }
    }
}

/// Inserting a mode into a valid mode list keeps every reference in range.
pub proof fn lemma_inserted_refs_in_range<P>(modes: Seq<ModeSettings<P>>, k: int, m: ModeSettings<P>)
    requires
        refs_in_range(modes, modes.len() as int),
        0 <= k <= modes.len(),
        modes.len() < i32::MAX,
    ensures
        refs_in_range(inserted_modes(modes, k, m), modes.len() + 1 as int),
{
    let r = inserted_modes(modes, k, m);
    assert forall|i: int| 0 <= i < r.len() implies 0 <= #[trigger] r[i].child_a_mode < modes.len() + 1
        && 0 <= r[i].child_b_mode < modes.len() + 1 by {
        if i != k {
            let o = modes[source_after_insert(i, k)];
            assert(0 <= o.child_a_mode < modes.len() && 0 <= o.child_b_mode < modes.len());
        }
    }
}

/// Removing a mode from a valid mode list keeps every reference in range.
pub proof fn lemma_removed_refs_in_range<P>(modes: Seq<ModeSettings<P>>, k: int)
    requires
        refs_in_range(modes, modes.len() as int),
        0 <= k < modes.len(),
        2 <= modes.len() <= i32::MAX,
    ensures
        refs_in_range(removed_modes(modes, k), modes.len() - 1 as int),
{
    let r = removed_modes(modes, k);
    assert forall|i: int| 0 <= i < r.len() implies 0 <= #[trigger] r[i].child_a_mode < modes.len() - 1
        && 0 <= r[i].child_b_mode < modes.len() - 1 by {
        let o = if i < k {
            modes[i]
        } else {
            modes[i + 1]
        };
        assert(0 <= o.child_a_mode < modes.len() && 0 <= o.child_b_mode < modes.len());
    }
}

/// Inserting a mode at `k` keeps every parent-to-child relationship: the
/// mode that stood at `j` now stands at `shift(j)`, and each of its children
/// that stood at `c` is found at `shift(c)`, where `shift` moves indices at or
/// past `k` up by one. Modes and references below `k` are untouched, and the
/// new mode at `k` refers only to itself.
pub proof fn lemma_insert_keeps_relationships<P>(modes: Seq<ModeSettings<P>>, k: int, m: ModeSettings<P>)
    requires
        refs_in_range(modes, modes.len() as int),
        0 <= k <= modes.len(),
        modes.len() < i32::MAX,
    ensures
        ({
            let r = inserted_modes(modes, k, m);
            &&& r[k].child_a_mode == k && r[k].child_b_mode == k
            &&& forall|j: int|
                #![trigger modes[j]]
                0 <= j < modes.len() ==> {
                    let moved = shift_after_insert(j as i32, k) as int;
                    &&& r[moved].name == modes[j].name
                    &&& r[moved].default_name == modes[j].default_name
                    &&& r[moved].payload == modes[j].payload
                    &&& r[moved].child_a_mode == shift_after_insert(modes[j].child_a_mode, k)
                    &&& r[moved].child_b_mode == shift_after_insert(modes[j].child_b_mode, k)
                    &&& (j < k && modes[j].child_a_mode < k ==> r[j].child_a_mode == modes[j].child_a_mode)
                    &&& (j < k && modes[j].child_b_mode < k ==> r[j].child_b_mode == modes[j].child_b_mode)
                }
        }),
{
    let r = inserted_modes(modes, k, m);
    assert forall|j: int| 0 <= j < modes.len() implies #[trigger] source_after_insert(
        shift_after_insert(j as i32, k) as int,
        k,
    ) == j && shift_after_insert(j as i32, k) as int != k by {}
}

/// Removing the mode at `k` sends every reference to it to the index at which
/// the referring mode now stands, moves every reference past `k` down by one,
/// and leaves every reference below `k` as it was.
pub proof fn lemma_remove_redirects<P>(modes: Seq<ModeSettings<P>>, k: int)
    requires
        refs_in_range(modes, modes.len() as int),
        0 <= k < modes.len(),
        2 <= modes.len() <= i32::MAX,
    ensures
        forall|i: int|
            0 <= i < modes.len() - 1 ==> {
                let o = if i < k {
                    modes[i]
                } else {
                    modes[i + 1]
                };
                let r = #[trigger] removed_modes(modes, k)[i];
                &&& r.name == o.name
                &&& r.default_name == o.default_name
                &&& r.payload == o.payload
                &&& (o.child_a_mode == k ==> r.child_a_mode == i)
                &&& (o.child_b_mode == k ==> r.child_b_mode == i)
                &&& (o.child_a_mode > k ==> r.child_a_mode == o.child_a_mode - 1)
                &&& (o.child_b_mode > k ==> r.child_b_mode == o.child_b_mode - 1)
                &&& (o.child_a_mode < k ==> r.child_a_mode == o.child_a_mode)
                &&& (o.child_b_mode < k ==> r.child_b_mode == o.child_b_mode)
            },
{
}

/// One structural edit: `(true, k, m)` inserts `m` at `k`, `(false, k, _)`
/// removes the mode at `k`.
pub type ModeEdit<P> = (bool, int, ModeSettings<P>);

/// Whether `insert_mode` or `remove_mode_at` accepts the edit on a genome
/// with these modes.
pub open spec fn edit_allowed<P>(modes: Seq<ModeSettings<P>>, e: ModeEdit<P>) -> bool {
    if e.0 {
        0 <= e.1 <= modes.len() && modes.len() < i32::MAX
    } else {
        0 <= e.1 < modes.len() && modes.len() >= 2
    }
}

/// The modes and initial mode after one edit.
pub open spec fn apply_edit<P>(state: (Seq<ModeSettings<P>>, i32), e: ModeEdit<P>) -> (
    Seq<ModeSettings<P>>,
    i32,
) {
    if e.0 {
        (inserted_modes(state.0, e.1, e.2), shift_after_insert(state.1, e.1))
    } else {
        (removed_modes(state.0, e.1), initial_after_remove(state.1, e.1))
    }
}

/// The modes and initial mode after a sequence of edits.
pub open spec fn apply_edits<P>(state: (Seq<ModeSettings<P>>, i32), edits: Seq<ModeEdit<P>>) -> (
    Seq<ModeSettings<P>>,
    i32,
)
    decreases edits.len(),
{
    if edits.len() == 0 {
        state
    } else {
        apply_edit(apply_edits(state, edits.drop_last()), edits.last())
    }
}

/// Whether each edit of the sequence is accepted by the genome it meets.
pub open spec fn edits_allowed<P>(state: (Seq<ModeSettings<P>>, i32), edits: Seq<ModeEdit<P>>) -> bool
    decreases edits.len(),
{
    if edits.len() == 0 {
        true
    } else {
        edits_allowed(state, edits.drop_last()) && edit_allowed(
            apply_edits(state, edits.drop_last()).0,
            edits.last(),
        )
    }
}

/// Starting from a valid genome, any sequence of inserts and removals leaves
/// a valid genome after every step: at least one mode, the initial mode in
/// range and every child reference in range.
pub proof fn lemma_edits_keep_genome_valid<P>(state: (Seq<ModeSettings<P>>, i32), edits: Seq<ModeEdit<P>>)
    requires
        genome_valid(state.0, state.1),
        edits_allowed(state, edits),
    ensures
        forall|j: int|
            0 <= j <= edits.len() ==> {
                let s = #[trigger] apply_edits(state, edits.subrange(0, j));
                genome_valid(s.0, s.1)
            },
    decreases edits.len(),
{
    if edits.len() > 0 {
        let prefix = edits.drop_last();
        lemma_edits_keep_genome_valid(state, prefix);
        assert forall|j: int| 0 <= j <= edits.len() implies {
            let s = #[trigger] apply_edits(state, edits.subrange(0, j));
            genome_valid(s.0, s.1)
        } by {
            if j < edits.len() {
                assert(edits.subrange(0, j) =~= prefix.subrange(0, j));
            } else {
                assert(edits.subrange(0, j) =~= edits);
                assert(prefix.subrange(0, prefix.len() as int) =~= prefix);
                let before = apply_edits(state, prefix);
                lemma_edit_keeps_genome_valid(before, edits.last());
            }
        }
    } else {
        assert forall|j: int| 0 <= j <= edits.len() implies {
            let s = #[trigger] apply_edits(state, edits.subrange(0, j));
            genome_valid(s.0, s.1)
        } by {
            assert(edits.subrange(0, j) =~= edits);
        }
    }
}

proof fn lemma_edit_keeps_genome_valid<P>(state: (Seq<ModeSettings<P>>, i32), e: ModeEdit<P>)
    requires
        genome_valid(state.0, state.1),
        edit_allowed(state.0, e),
    ensures
        genome_valid(apply_edit(state, e).0, apply_edit(state, e).1),
{
    if e.0 {
        lemma_inserted_refs_in_range(state.0, e.1, e.2);
    } else {
        lemma_removed_refs_in_range(state.0, e.1);
    }
}

} // verus!
