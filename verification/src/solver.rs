//! What a linear solver reports, and the check of the pattern that it is given.

use crate::mna::pattern_ok;
use vstd::prelude::*;

verus! {

/// The stage at which a linear solver gave up.
#[derive(Debug, Clone, Copy, PartialEq, Eq)]
pub enum SolverError {
    AnalyzeFailed,
    FactorFailed,
    SolveFailed,
}

/// Checks a compressed-column pattern of dimension `n` before a solver works on it:
/// `ap` holds one start for each column and one past the last, they begin at zero, do
/// not fall and end at the number of entries, and every row of `ai` lies inside the
/// matrix.
pub fn check_pattern(n: usize, ap: &[i64], ai: &[i64]) -> (r: Result<(), SolverError>)
    ensures
        r is Ok <==> pattern_ok(n as nat, ap@, ai@),
        r is Err ==> r == Err::<(), SolverError>(SolverError::AnalyzeFailed),
{
    if ap.len() == 0 || ap.len() - 1 != n {
        return Err(SolverError::AnalyzeFailed);
    }
    if ap[0] != 0 {
        return Err(SolverError::AnalyzeFailed);
    }
    let mut c: usize = 0;
    while c < n
        invariant
            c <= n,
            ap.len() == n + 1,
            forall|k: int| 0 <= k < c ==> #[trigger] ap@[k] <= ap@[k + 1],
        decreases n - c,
    {
        if ap[c] > ap[c + 1] {
            return Err(SolverError::AnalyzeFailed);
        }
        c += 1;
    }
    let last = ap[n];
    if last < 0 || last as u64 != ai.len() as u64 {
        return Err(SolverError::AnalyzeFailed);
    }
    let mut k: usize = 0;
    while k < ai.len()
        invariant
            k <= ai.len(),
            forall|j: int| 0 <= j < k ==> 0 <= #[trigger] ai@[j] < n,
        decreases ai.len() - k,
    {
        let row = ai[k];
        if row < 0 || row as u64 >= n as u64 {
            return Err(SolverError::AnalyzeFailed);
        }
        k += 1;
    }
    Ok(())
}

} // verus!
