use vstd::prelude::*;

verus! {

/// One mode of a genome: what a cell of this mode is called and which modes
/// its two offspring adopt after a division. Everything else a mode carries is
/// held in `payload`, which no rule of this crate reads.
pub struct ModeSettings<P> {
    pub name: String,
    pub default_name: String,
    pub child_a_mode: i32,
    pub child_b_mode: i32,
    pub payload: P,
}

/// A genome: its modes, in order, and the mode a new cell starts in.
/// A mode's identity is its position in `modes`.
pub struct GenomeData<P> {
    pub name: String,
    pub initial_mode: i32,
    pub modes: Vec<ModeSettings<P>>,
}

/// The genome being edited, with the editor's selection and view flags.
pub struct CurrentGenome<P> {
    pub genome: GenomeData<P>,
    pub selected_mode_index: i32,
    pub show_mode_glow: bool,
    pub show_genome_graph: bool,
}

/// `m` with its two child references replaced.
pub open spec fn with_children<P>(m: ModeSettings<P>, a: i32, b: i32) -> ModeSettings<P> {
    ModeSettings {
        name: m.name,
        default_name: m.default_name,
        child_a_mode: a,
        child_b_mode: b,
        payload: m.payload,
    }
}

/// Every child reference of `modes` names one of `n` modes.
pub open spec fn refs_in_range<P>(modes: Seq<ModeSettings<P>>, n: int) -> bool {
    forall|i: int|
        #![trigger modes[i]]
        0 <= i < modes.len() ==> 0 <= modes[i].child_a_mode < n && 0 <= modes[i].child_b_mode < n
}

/// A genome whose references all resolve: at least one mode, an initial mode
/// and every child reference inside the mode list, and a mode count that an
/// `i32` reference can address.
pub open spec fn genome_valid<P>(modes: Seq<ModeSettings<P>>, initial: i32) -> bool {
    &&& 1 <= modes.len() <= i32::MAX
    &&& 0 <= initial < modes.len()
    &&& refs_in_range(modes, modes.len() as int)
}

/// Where a reference `r` points once a mode has been inserted at `k`.
pub open spec fn shift_after_insert(r: i32, k: int) -> i32 {
    if r >= k {
        (r + 1) as i32
    } else {
        r
    }
}

/// Where a reference `r`, held by the mode that now stands at `own`, points
/// once the mode at `k` has been removed.
pub open spec fn shift_after_remove(r: i32, k: int, own: int) -> i32 {
    if r == k {
        own as i32
    } else if r > k {
        (r - 1) as i32
    } else {
        r
    }
}

/// The initial mode once the mode at `k` has been removed.
pub open spec fn initial_after_remove(r: i32, k: int) -> i32 {
    if r == k {
        0
    } else if r > k {
        (r - 1) as i32
    } else {
        r
    }
}

/// The old mode that ends up at index `i` once a mode is inserted at `k`.
pub open spec fn source_after_insert(i: int, k: int) -> int {
    if i < k {
        i
    } else {
        i - 1
    }
}

/// The mode list after `m` is inserted at `k`: `m` refers to itself and every
/// other reference is shifted past the new slot.
pub open spec fn inserted_modes<P>(modes: Seq<ModeSettings<P>>, k: int, m: ModeSettings<P>) -> Seq<
    ModeSettings<P>,
> {
    Seq::new(
        (modes.len() + 1) as nat,
        |i: int|
            if i == k {
                with_children(m, k as i32, k as i32)
            } else {
                let o = modes[source_after_insert(i, k)];
                with_children(o, shift_after_insert(o.child_a_mode, k), shift_after_insert(o.child_b_mode, k))
            },
    )
}

/// The mode list after the mode at `k` is removed: references to it become
/// self-references of the holder, references past it move down by one.
pub open spec fn removed_modes<P>(modes: Seq<ModeSettings<P>>, k: int) -> Seq<ModeSettings<P>> {
    Seq::new(
        (modes.len() - 1) as nat,
        |i: int|
            {
                let o = if i < k {
                    modes[i]
                } else {
                    modes[i + 1]
                };
                with_children(o, shift_after_remove(o.child_a_mode, k, i), shift_after_remove(o.child_b_mode, k, i))
            },
    )
}

impl<P> ModeSettings<P> {
    /// A mode whose offspring both stay in `mode_number`, named `name`, which
    /// also becomes its default name.
    pub fn new_self_splitting(mode_number: i32, name: String, payload: P) -> (r: Self)
        ensures
            r.name@ == name@,
            r.default_name@ == name@,
            r.child_a_mode == mode_number,
            r.child_b_mode == mode_number,
            r.payload == payload,
    {
        ModeSettings {
            name: name.clone(),
            default_name: name,
            child_a_mode: mode_number,
            child_b_mode: mode_number,
            payload,
        }
    }
}

impl<P> GenomeData<P> {
    pub open spec fn wf(&self) -> bool {
        genome_valid(self.modes@, self.initial_mode)
    }

    /// A genome named `name` holding the single self-splitting mode
    /// "Mode 0", which is also its initial mode.
    pub fn with_default_mode(name: String, payload: P) -> (r: Self)
        ensures
            r.wf(),
            r.name@ == name@,
            r.initial_mode == 0,
            r.modes.len() == 1,
            r.modes[0].name@ == "Mode 0"@,
            r.modes[0].default_name@ == "Mode 0"@,
            r.modes[0].child_a_mode == 0,
            r.modes[0].child_b_mode == 0,
            r.modes[0].payload == payload,
    {
        let first = ModeSettings::new_self_splitting(0, String::from_str("Mode 0"), payload);
        let mut modes: Vec<ModeSettings<P>> = Vec::new();
        modes.push(first);
        GenomeData { name, initial_mode: 0, modes }
    }

    /// Whether every reference of the genome resolves; a document read from
    /// disk is accepted only when this holds.
    pub fn is_valid(&self) -> (r: bool)
        ensures
            r == self.wf(),
    {
        let n = self.modes.len();
        if n == 0 || n > i32::MAX as usize {
            return false;
        }
        if self.initial_mode < 0 || self.initial_mode as usize >= n {
            return false;
        }
        let mut i: usize = 0;
        while i < n
            invariant
                n == self.modes.len(),
                1 <= n <= i32::MAX,
                i <= n,
                refs_in_range(self.modes@.subrange(0, i as int), n as int),
            decreases n - i,
        {
            let a = self.modes[i].child_a_mode;
            let b = self.modes[i].child_b_mode;
            if a < 0 || a as usize >= n || b < 0 || b as usize >= n {
                assert(!refs_in_range(self.modes@, n as int)) by {
                    assert(self.modes@[i as int] == self.modes[i as int]);
                }
                return false;
            }
            assert(refs_in_range(self.modes@.subrange(0, i + 1), n as int)) by {
                assert forall|j: int| 0 <= j < i + 1 implies #[trigger] self.modes@.subrange(0, i + 1)[j]
                    == self.modes@[j] by {}
                assert forall|j: int| 0 <= j < i implies #[trigger] self.modes@.subrange(0, i as int)[j]
                    == self.modes@[j] by {}
            }
            i = i + 1;
        }
        assert(self.modes@.subrange(0, n as int) =~= self.modes@);
        true
    }
}

} // verus!
