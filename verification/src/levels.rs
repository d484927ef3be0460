//! Level definitions and the scoring log.
//!
//! A level names the byte sequences its providers replay and the sequences
//! its observers are expected to see, both indexed by tick and keyed by a
//! small integer id.  During a run every observer appends one row per tick
//! to the shared scoring log, comparing what it read against what the level
//! expects at that tick.

use vstd::prelude::*;

verus! {

/// Whether one observed value matched the expected one.
#[derive(Clone, Copy, Debug, PartialEq, Eq, Structural)]
pub enum ResultType {
    Incorrect,
    Correct,
}

/// One scoring-log row: what an observer saw at one tick, next to what the
/// level expected then, if anything.
#[derive(Clone, Copy, Debug, PartialEq, Eq, Structural)]
pub struct ScoreRow {
    pub tick: usize,
    pub expected: Option<u8>,
    pub observed: Option<u8>,
    pub result: ResultType,
}

/// A recorded row is correct when nothing was expected at that tick, or the
/// observed value equals the expected one.
pub open spec fn row_correct(expected: Option<u8>, observed: Option<u8>) -> bool {
    match expected {
        Option::None => true,
        Option::Some(e) => observed == Some(e),
    }
}

/// The replayable part of a level: provider input sequences and expected
/// observer outputs, both keyed by component id and indexed by tick.  A
/// `None` entry means no value is provided or expected at that tick.
#[derive(Debug)]
pub struct LevelData {
    pub name: String,
    pub desc: String,
    pub provided_inputs: Vec<Vec<Option<u8>>>,
    pub expected_outputs: Vec<Vec<Option<u8>>>,
}

impl LevelData {
    /// What provider `id` should emit at `tick`: `None` outside the known
    /// ids and past the end of the sequence.
    pub open spec fn spec_provided_at(self, id: int, tick: int) -> Option<u8> {
        if 0 <= id < self.provided_inputs@.len() && 0 <= tick < self.provided_inputs@[id]@.len() {
            self.provided_inputs@[id]@[tick]
        } else {
            None
        }
    }

    /// What observer `id` is expected to see at `tick`: `None` outside the
    /// known ids and past the end of the sequence.
    pub open spec fn spec_expected_at(self, id: int, tick: int) -> Option<u8> {
        if 0 <= id < self.expected_outputs@.len() && 0 <= tick < self.expected_outputs@[id]@.len() {
            self.expected_outputs@[id]@[tick]
        } else {
            None
        }
    }

    /// The value provider `id` replays at `tick`, if any.
    pub fn provided_at(&self, id: usize, tick: usize) -> (r: Option<u8>)
        ensures
            r == self.spec_provided_at(id as int, tick as int),
    {
        if id < self.provided_inputs.len() {
            if tick < self.provided_inputs[id].len() {
                return self.provided_inputs[id][tick];
            }
        }
        None
    }

    /// The value observer `id` is expected to see at `tick`, if any.
    pub fn expected_at(&self, id: usize, tick: usize) -> (r: Option<u8>)
        ensures
            r == self.spec_expected_at(id as int, tick as int),
    {
        if id < self.expected_outputs.len() {
            if tick < self.expected_outputs[id].len() {
                return self.expected_outputs[id][tick];
            }
        }
        None
    }
}

/// The scoring log of one run: per observer id, the rows recorded so far,
/// and whether every row so far was correct.
#[derive(Debug)]
pub struct SimIOPadded {
    pub correct_so_far: bool,
    pub records: Vec<Vec<ScoreRow>>,
}

impl SimIOPadded {
    /// The recorded rows, per observer id, as mathematical sequences.
    pub open spec fn rows_view(self) -> Seq<Seq<ScoreRow>> {
        Seq::new(self.records@.len(), |i: int| self.records@[i]@)
    }

    /// An empty log with one row list per expected-output sequence of the
    /// level.
    pub fn from_level_data(level_data: &LevelData) -> (r: SimIOPadded)
        ensures
            r.correct_so_far == true,
            r.records@.len() == level_data.expected_outputs@.len(),
            forall|i: int| 0 <= i < r.records@.len() ==> (#[trigger] r.records@[i]@).len() == 0,
    {
        let mut records: Vec<Vec<ScoreRow>> = Vec::new();
        let n = level_data.expected_outputs.len();
        let mut i: usize = 0;
        while i < n
            invariant
                i <= n,
                records@.len() == i,
                forall|j: int| 0 <= j < i ==> (#[trigger] records@[j]@).len() == 0,
            decreases n - i,
        {
            records.push(Vec::new());
            i = i + 1;
        }
        SimIOPadded { correct_so_far: true, records }
    }

    /// The row `add_output` records for observer `id` at `tick` when it
    /// observed `val`.
    pub open spec fn spec_row(level: LevelData, tick: int, id: int, val: Option<u8>) -> ScoreRow {
        ScoreRow {
            tick: tick as usize,
            expected: level.spec_expected_at(id, tick),
            observed: val,
            result: if row_correct(level.spec_expected_at(id, tick), val) {
                ResultType::Correct
            } else {
                ResultType::Incorrect
            },
        }
    }

    /// The per-id row lists after `add_output`: the recorded row is appended
    /// to the list of `id`; an id the log does not know is ignored.
    pub open spec fn spec_add_rows(
        rows: Seq<Seq<ScoreRow>>,
        level: LevelData,
        tick: int,
        id: int,
        val: Option<u8>,
    ) -> Seq<Seq<ScoreRow>> {
        if 0 <= id < rows.len() {
            rows.update(id, rows[id].push(SimIOPadded::spec_row(level, tick, id, val)))
        } else {
            rows
        }
    }

    /// `correct_so_far` after `add_output`.
    pub open spec fn spec_add_correct(
        correct_so_far: bool,
        rows_len: int,
        level: LevelData,
        tick: int,
        id: int,
        val: Option<u8>,
    ) -> bool {
        if 0 <= id < rows_len {
            correct_so_far && row_correct(level.spec_expected_at(id, tick), val)
        } else {
            correct_so_far
        }
    }

    /// Record one observation: append a row for observer `id` comparing
    /// `val` against what the level expects at `tick`, and clear
    /// `correct_so_far` if they disagree.  An id the log does not know
    /// records nothing.
    pub fn add_output(&mut self, level_data: &LevelData, tick: usize, id: usize, val: Option<u8>)
        ensures
            final(self).rows_view() =~~= SimIOPadded::spec_add_rows(
                old(self).rows_view(),
                *level_data,
                tick as int,
                id as int,
                val,
            ),
            final(self).correct_so_far == SimIOPadded::spec_add_correct(
                old(self).correct_so_far,
                old(self).records@.len() as int,
                *level_data,
                tick as int,
                id as int,
                val,
            ),
            final(self).records@.len() == old(self).records@.len(),
    {
        if id < self.records.len() {
            let expected = level_data.expected_at(id, tick);
            let correct = match (expected, val) {
                (Option::None, _) => true,
                (Option::Some(e), Option::Some(v)) => e == v,
                (Option::Some(_), Option::None) => false,
            };
            let row = ScoreRow {
                tick,
                expected,
                observed: val,
                result: if correct {
                    ResultType::Correct
                } else {
                    ResultType::Incorrect
                },
            };
            self.records[id].push(row);
            self.correct_so_far = self.correct_so_far && correct;
        }
    }
}

} // verus!
