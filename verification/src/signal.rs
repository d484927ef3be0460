//! Signal cells and port bindings.
//!
//! One electrical node discovered by the build phase is one byte-valued
//! signal cell.  All cells of a generation live in a single bank and are
//! addressed by index; a component port stores the index of the cell it was
//! bound to, or nothing while unbound.  Discarding a generation is swapping
//! the bank for a fresh one.

use vstd::prelude::*;

verus! {

/// The signal cells of one build generation, indexed by the ids that ports
/// store.  Every cell starts at 0 (logic LOW).
#[derive(Debug)]
pub struct SignalBank {
    pub cells: Vec<u8>,
}

impl SignalBank {
    /// A bank with no cells: the state between builds.
    pub fn new() -> (r: SignalBank)
        ensures
            r.cells@.len() == 0,
    {
        SignalBank { cells: Vec::new() }
    }

    /// Allocate one fresh signal cell holding 0 and return its id.
    pub fn alloc_cell(&mut self) -> (idx: usize)
        requires
            old(self).cells@.len() < usize::MAX,
        ensures
            idx == old(self).cells@.len(),
            final(self).cells@ =~= old(self).cells@.push(0u8),
    {
        let idx = self.cells.len();
        self.cells.push(0);
        idx
    }

    /// The value of cell `idx`; a stale or unknown id reads 0.
    pub fn read(&self, idx: usize) -> (r: u8)
        ensures
            r == spec_bank_read(self.cells@, idx as int),
    {
        if idx < self.cells.len() {
            self.cells[idx]
        } else {
            0
        }
    }

    /// Set the value of cell `idx`; a stale or unknown id is ignored.
    pub fn write(&mut self, idx: usize, val: u8)
        ensures
            final(self).cells@ =~= spec_bank_write(old(self).cells@, idx as int, val),
    {
        if idx < self.cells.len() {
            self.cells[idx] = val;
        }
    }
}

/// The value of cell `idx` in a bank, 0 when out of range.
pub open spec fn spec_bank_read(cells: Seq<u8>, idx: int) -> u8 {
    if 0 <= idx < cells.len() {
        cells[idx]
    } else {
        0
    }
}

/// The bank after writing `val` into cell `idx`; out of range writes change
/// nothing.
pub open spec fn spec_bank_write(cells: Seq<u8>, idx: int, val: u8) -> Seq<u8> {
    if 0 <= idx < cells.len() {
        cells.update(idx, val)
    } else {
        cells
    }
}

/// A component port's binding to a signal cell: the cell id once the build
/// phase joined the port to a node, nothing while unbound.  An unbound port
/// reads 0 and swallows writes.
#[derive(Clone, Copy, Debug, PartialEq, Eq, Structural)]
pub struct ComponentPortData(pub Option<usize>);

impl Default for ComponentPortData {
    /// An unbound port.
    fn default() -> (r: Self)
        ensures
            r.0 is None,
    {
        ComponentPortData(None)
    }
}

impl ComponentPortData {
    /// What `get` reads from a bank through this binding.
    pub open spec fn spec_get(self, cells: Seq<u8>) -> u8 {
        match self.0 {
            Option::Some(i) => spec_bank_read(cells, i as int),
            Option::None => 0,
        }
    }

    /// The bank after `set` writes `val` through this binding.
    pub open spec fn spec_set(self, cells: Seq<u8>, val: u8) -> Seq<u8> {
        match self.0 {
            Option::Some(i) => spec_bank_write(cells, i as int, val),
            Option::None => cells,
        }
    }

    /// Read the bound signal cell; an unbound port reads 0.
    pub fn get(&self, bank: &SignalBank) -> (r: u8)
        ensures
            r == self.spec_get(bank.cells@),
    {
        match self.0 {
            Some(i) => bank.read(i),
            None => 0,
        }
    }

    /// Write the bound signal cell; an unbound port ignores the write.
    pub fn set(&self, bank: &mut SignalBank, val: u8)
        ensures
            final(bank).cells@ =~= self.spec_set(old(bank).cells@, val),
    {
        match self.0 {
            Some(i) => bank.write(i, val),
            None => {},
        }
    }

    /// Bind the port to a signal cell, or unbind it.
    pub fn set_link(&mut self, link: Option<usize>)
        ensures
            final(self).0 == link,
    {
        self.0 = link;
    }
}

} // verus!
