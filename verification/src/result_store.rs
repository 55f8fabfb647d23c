//! The record of one analysis run and the store that numbers the runs.
//!
//! The records are generic in the scalar `T` of the solutions, which the store keeps
//! and never computes with.

use vstd::prelude::*;

verus! {

/// The number of a run: its position in the store.
#[derive(Debug, Clone, Copy, PartialEq, Eq, Hash)]
pub struct RunId(pub usize);

/// The kind of analysis that a run performed.
#[derive(Debug, Clone, Copy, PartialEq, Eq)]
pub enum AnalysisType {
    Op,
    Dc,
    Tran,
    Ac,
}

/// How a run ended.
#[derive(Debug, Clone, Copy, PartialEq, Eq)]
pub enum RunStatus {
    Converged,
    MaxIters,
    Failed,
}

/// What one run produced.
///
/// `solution` has one value for each name of `node_names`. A sweep has a solution for
/// each of its values, a transient analysis for each of its times, and an analysis over
/// frequencies a magnitude and a phase of each node for each of its frequencies.
#[derive(Debug, Clone)]
pub struct RunResult<T> {
    pub id: RunId,
    pub analysis: AnalysisType,
    pub status: RunStatus,
    pub iterations: usize,
    pub node_names: Vec<String>,
    pub solution: Vec<T>,
    pub message: Option<String>,
    pub sweep_var: Option<String>,
    pub sweep_values: Vec<T>,
    pub sweep_solutions: Vec<Vec<T>>,
    pub tran_times: Vec<T>,
    pub tran_solutions: Vec<Vec<T>>,
    pub ac_frequencies: Vec<T>,
    pub ac_solutions: Vec<Vec<(T, T)>>,
}

impl<T> RunResult<T> {
    /// The result of a run of which nothing is known yet but its analysis, how it
    /// ended and the names of its nodes.
    pub fn new(analysis: AnalysisType, status: RunStatus, node_names: Vec<String>) -> (run: Self)
        ensures
            run.id == RunId(0),
            run.analysis == analysis,
            run.status == status,
            run.iterations == 0,
            run.node_names == node_names,
            run.solution@.len() == 0,
            run.message is None,
            run.sweep_var is None,
            run.sweep_values@.len() == 0,
            run.sweep_solutions@.len() == 0,
            run.tran_times@.len() == 0,
            run.tran_solutions@.len() == 0,
            run.ac_frequencies@.len() == 0,
            run.ac_solutions@.len() == 0,
    {
        RunResult {
            id: RunId(0),
            analysis: analysis,
            status: status,
            iterations: 0,
            node_names: node_names,
            solution: Vec::new(),
            message: None,
            sweep_var: None,
            sweep_values: Vec::new(),
            sweep_solutions: Vec::new(),
            tran_times: Vec::new(),
            tran_solutions: Vec::new(),
            ac_frequencies: Vec::new(),
            ac_solutions: Vec::new(),
        }
    }
}

/// The values of the nodes of a solution: the first `node_count` unknowns, without the
/// auxiliary unknowns that follow them, and `zero` for a node that the solution does
/// not reach.
pub fn node_values<T: Copy>(x: &Vec<T>, node_count: usize, zero: T) -> (out: Vec<T>)
    ensures
        out@.len() == node_count,
        forall|i: int|
            0 <= i < node_count ==> #[trigger] out@[i] == (if i < x@.len() {
                x@[i]
            } else {
                zero
            }),
{
    let mut out: Vec<T> = Vec::new();
    let mut i: usize = 0;
    while i < node_count
        invariant
            i <= node_count,
            out@.len() == i,
            forall|k: int|
                0 <= k < i ==> #[trigger] out@[k] == (if k < x@.len() {
                    x@[k]
                } else {
                    zero
                }),
        decreases node_count - i,
    {
        if i < x.len() {
            out.push(x[i]);
        } else {
            out.push(zero);
        }
        i += 1;
    }
    out
}

/// The runs of a session, in the order in which they were added.
#[derive(Debug, Clone)]
pub struct ResultStore<T> {
    pub runs: Vec<RunResult<T>>,
}

/// `a` and `b` are the same record but for the id.
pub open spec fn same_but_id<T>(a: RunResult<T>, b: RunResult<T>) -> bool {
    a == (RunResult { id: a.id, ..b })
}

impl<T> ResultStore<T> {
    /// Every run carries its position as its id.
    pub open spec fn wf(&self) -> bool {
        forall|i: int| 0 <= i < self.runs@.len() ==> (#[trigger] self.runs@[i]).id.0 == i
    }

    /// The store without runs.
    pub fn new() -> (store: Self)
        ensures
            store.runs@.len() == 0,
            store.wf(),
    {
        ResultStore { runs: Vec::new() }
    }

    /// Appends a run and hands out its id, which is the number of runs that were
    /// there before. The id is written into the run; nothing else of it changes.
    pub fn add_run(&mut self, run: RunResult<T>) -> (id: RunId)
        ensures
            id.0 == old(self).runs@.len(),
            final(self).runs@.len() == old(self).runs@.len() + 1,
            final(self).runs@.take(id.0 as int) == old(self).runs@,
            final(self).runs@[id.0 as int].id == id,
            same_but_id(final(self).runs@[id.0 as int], run),
            old(self).wf() ==> final(self).wf(),
    {
        let id = RunId(self.runs.len());
        let mut run = run;
        run.id = id;
        self.runs.push(run);
        id
    }

    /// The run with the given id, if there is one.
    pub fn get(&self, id: RunId) -> (run: Option<&RunResult<T>>)
        ensures
            run == (if id.0 < self.runs@.len() {
                Some(&self.runs@[id.0 as int])
            } else {
                None
            }),
    {
        if id.0 < self.runs.len() {
            Some(&self.runs[id.0])
        } else {
            None
        }
    }
}

} // verus!
