//! The worklist of a benchmark run: which presets are measured, and the
//! terminal row of each.

use vstd::prelude::*;
use crate::error::BenchError;
use crate::hashers::{lemma_lookup_finds_own_name, Preset};

verus! {

/// One entry of the worklist with its terminal row.
#[derive(Debug, Clone, Copy, PartialEq, Eq, Structural)]
pub struct Assignment {
    pub preset: Preset,
    pub line: u16,
}

/// The terminal row of the worklist entry at `position`: rows count from 1.
pub open spec fn row_of(position: int) -> int {
    position + 1
}

/// The presets of one benchmark run, in the order in which their workers are
/// launched. A worklist is never empty, and each of its entries has a row.
#[derive(Debug)]
pub struct Worklist {
    entries: Vec<Preset>,
}

impl Worklist {
    #[verifier::type_invariant]
    spec fn inv(self) -> bool {
        1 <= self.entries@.len() <= u16::MAX
    }

    /// The presets of the worklist, in launch order.
    pub closed spec fn presets(self) -> Seq<Preset> {
        self.entries@
    }

    /// A worklist of the given presets, in their order. No preset at all is
    /// `EmptyWorklist`.
    pub fn new(presets: Vec<Preset>) -> (r: Result<Worklist, BenchError>)
        requires
            presets@.len() <= u16::MAX,
        ensures
            presets@.len() == 0 ==> r matches Err(BenchError::EmptyWorklist),
            presets@.len() > 0 ==> (r matches Ok(worklist) && worklist.presets() == presets@),
    {
        if presets.len() == 0 {
            Err(BenchError::EmptyWorklist)
        } else {
            Ok(Worklist { entries: presets })
        }
    }

    /// The worklist of every preset of the registry, in declaration order:
    /// each listed name is looked up again.
    pub fn all() -> (r: Result<Worklist, BenchError>)
        ensures
            r matches Ok(worklist) && worklist.presets() == Preset::all(),
    {
        let names = Preset::to_vec();
        let mut presets: Vec<Preset> = Vec::new();
        let mut i: usize = 0;
        while i < names.len()
            invariant
                i <= names.len(),
                names@.len() == Preset::all().len(),
                forall|j: int| 0 <= j < names@.len() ==> (#[trigger] names@[j])@ == Preset::names()[j],
                presets@ == Preset::all().take(i as int),
            decreases names.len() - i,
        {
            proof {
                lemma_lookup_finds_own_name(Preset::all()[i as int]);
            }
            let found = Preset::from_str(names[i].as_str());
            if let Some(preset) = found {
                presets.push(preset);
            }
            assert(presets@ == Preset::all().take(i + 1));
            i += 1;
        }
        assert(Preset::all().take(Preset::all().len() as int) == Preset::all());
        Worklist::new(presets)
    }

    /// The worklist of a run: the one preset that `selector` names, ASCII
    /// case aside, or every preset where there is no selector. A selector
    /// that names no preset is `PresetNotFound`, with the selector.
    pub fn resolve(selector: Option<String>) -> (r: Result<Worklist, BenchError>)
        ensures
            match selector {
                None => r matches Ok(worklist) && worklist.presets() == Preset::all(),
                Some(name) => match Preset::lookup(name@) {
                    Some(preset) => r matches Ok(worklist) && worklist.presets() == seq![preset],
                    None => r matches Err(BenchError::PresetNotFound(missing)) && missing@
                        == name@,
                },
            },
    {
        match selector {
            Some(name) => match Preset::from_str(name.as_str()) {
                Some(preset) => {
                    let mut presets: Vec<Preset> = Vec::new();
                    presets.push(preset);
                    assert(presets@ == seq![preset]);
                    Worklist::new(presets)
                },
                None => Err(BenchError::PresetNotFound(name)),
            },
            None => Worklist::all(),
        }
    }

    /// The number of entries.
    pub fn len(&self) -> (r: usize)
        ensures
            r == self.presets().len(),
            1 <= r <= u16::MAX,
    {
        proof {
            use_type_invariant(self);
        }
        self.entries.len()
    }

    /// The entries with their rows: the row of an entry is its position in
    /// the worklist, counted from 1, so no two entries share a row.
    pub fn assignments(&self) -> (r: Vec<Assignment>)
        ensures
            r@.len() == self.presets().len(),
            forall|i: int|
                0 <= i < r@.len() ==> (#[trigger] r@[i]).preset == self.presets()[i] && r@[i].line
                    == row_of(i),
            forall|i: int, j: int|
                0 <= i < r@.len() && 0 <= j < r@.len() && i != j ==> (#[trigger] r@[i]).line != (
                #[trigger] r@[j]).line,
    {
        proof {
            use_type_invariant(self);
        }
        let mut r: Vec<Assignment> = Vec::new();
        let mut i: usize = 0;
        while i < self.entries.len()
            invariant
                i <= self.entries.len(),
                self.entries@.len() <= u16::MAX,
                r@.len() == i,
                forall|j: int|
                    0 <= j < i ==> (#[trigger] r@[j]).preset == self.entries@[j] && r@[j].line
                        == row_of(j),
            decreases self.entries.len() - i,
        {
            r.push(Assignment { preset: self.entries[i], line: (i + 1) as u16 });
            i += 1;
        }
        r
    }
}

} // verus!
