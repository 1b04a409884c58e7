//! Regions, copy constraints, and the layouter model.
//!
//! A region is the single mutable circuit-storage resource of one gadget
//! invocation: replay first materializes committed cells into it, then the
//! binder records copy constraints between cell pairs. A copy constraint
//! is an equality assertion between two committed cells; whether the
//! constrained values actually agree is checked by the external constraint
//! system when the finished circuit is verified, never during building.
use vstd::prelude::*;

verus! {

use crate::Error;
use crate::cell::{AssignedCell, CircuitCell};

/// One region of circuit storage: the cells committed into it and the
/// copy constraints asserted over them, in order.
pub struct Region {
    pub cells: Vec<AssignedCell>,
    pub constraints: Vec<(CircuitCell, CircuitCell)>,
}

impl Region {
    /// A fresh, empty region.
    pub fn new() -> (r: Region)
        ensures
            r.cells@.len() == 0,
            r.constraints@.len() == 0,
    {
        Region { cells: Vec::new(), constraints: Vec::new() }
    }

    /// Asserts that two committed cells denote the same logical value.
    /// Recording the pair always succeeds; an unsatisfiable pair only
    /// surfaces when the external constraint system checks the circuit.
    pub fn constrain_equal(&mut self, left: CircuitCell, right: CircuitCell) -> (r: Result<
        (),
        Error,
    >)
        ensures
            r is Ok,
            final(self).cells == old(self).cells,
            final(self).constraints@ == old(self).constraints@.push((left, right)),
    {
        self.constraints.push((left, right));
        Ok(())
    }
}

/// The layouter: owns the regions committed so far, in order.
pub struct Layouter {
    pub regions: Vec<Region>,
}

impl Layouter {
    /// A layouter with no regions yet.
    pub fn new() -> (r: Layouter)
        ensures
            r.regions@.len() == 0,
    {
        Layouter { regions: Vec::new() }
    }

    /// Closes a finished region: commits it after all writes and
    /// constraint assertions on it are done. Regions are only appended;
    /// row allocation never rewinds.
    pub fn push_region(&mut self, region: Region)
        ensures
            final(self).regions@.len() == old(self).regions@.len() + 1,
            forall|i: int| 0 <= i < old(self).regions@.len() ==> final(self).regions@[i] == old(
                self,
            ).regions@[i],
            final(self).regions@[old(self).regions@.len() as int] == region,
    {
        self.regions.push(region);
    }
}

} // verus!
