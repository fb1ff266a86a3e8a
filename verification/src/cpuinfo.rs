//! The host CPU as the report names it.

use vstd::prelude::*;

verus! {

/// The display name and the clock frequency of the host CPU, as they were
/// when the report was built.
#[derive(Debug, Clone)]
pub struct CpuInfo {
    pub name: String,
    pub frequency: u64,
}

impl CpuInfo {
    /// A snapshot with the given display name and clock frequency.
    pub fn new(name: String, frequency: u64) -> (r: CpuInfo)
        ensures
            r.name@ == name@,
            r.frequency == frequency,
    {
        CpuInfo { name, frequency }
    }

    /// The snapshot of a machine with the given cores: the first of them
    /// stands for all, and a machine without cores has none.
    pub fn first_of(cores: Vec<CpuInfo>) -> (r: Option<CpuInfo>)
        ensures
            cores@.len() == 0 ==> r is None,
            cores@.len() > 0 ==> r == Some(cores@[0]),
    {
        let mut cores = cores;
        if cores.len() == 0 {
            None
        } else {
            Some(cores.swap_remove(0))
        }
    }
}

} // verus!
