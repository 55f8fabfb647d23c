//! Assembly of a modified-nodal-analysis system: the table of auxiliary unknowns,
//! the column-wise builder of the sparse matrix, and the builder of the whole system.
//!
//! The types are generic in the scalar `T` that the matrix holds. Nothing here
//! computes with scalars: they are stored, moved and handed back.

use crate::names::{differs_from, distinct, find_name, intern_name, position_of};
use crate::span::lemma_span_props;
use vstd::prelude::*;

verus! {

/// The size of an assembled system.
#[derive(Debug, Clone)]
pub struct MnaSystem {
    pub size: usize,
}

/// The auxiliary unknowns of a system, by name. The id of a name is its position in
/// `id_to_name`.
#[derive(Debug)]
pub struct AuxVarTable {
    pub id_to_name: Vec<String>,
}

impl View for AuxVarTable {
    type V = Seq<Seq<char>>;

    open spec fn view(&self) -> Seq<Seq<char>> {
        self.id_to_name.deep_view()
    }
}

impl Clone for AuxVarTable {
    fn clone(&self) -> (r: Self)
        ensures
            r@ == self@,
    {
        let mut names: Vec<String> = Vec::new();
        let mut i: usize = 0;
        while i < self.id_to_name.len()
            invariant
                i <= self.id_to_name.len(),
                names.len() == i,
                forall|k: int| 0 <= k < i ==> names@[k]@ == self.id_to_name@[k]@,
            decreases self.id_to_name.len() - i,
        {
            names.push(self.id_to_name[i].clone());
            i += 1;
        }
        AuxVarTable { id_to_name: names }
    }
}

impl AuxVarTable {
    /// Every name has one id.
    pub open spec fn wf(&self) -> bool {
        distinct(self@)
    }

    /// The table without names.
    pub fn new() -> (table: Self)
        ensures
            table@ == Seq::<Seq<char>>::empty(),
            table.wf(),
    {
        AuxVarTable { id_to_name: Vec::new() }
    }

    /// The id of `name`, if it has one.
    pub fn lookup(&self, name: &str) -> (id: Option<usize>)
        ensures
            match id {
                Some(i) => i == position_of(self@, name@) && i < self@.len(),
                None => position_of(self@, name@) == self@.len(),
            },
    {
        find_name(&self.id_to_name, name)
    }

    /// The id of `name`. A name that has none yet gets the next one.
    pub fn allocate(&mut self, name: &str) -> (id: usize)
        ensures
            id == position_of(old(self)@, name@),
            final(self)@ == (if id < old(self)@.len() {
                old(self)@
            } else {
                old(self)@.push(name@)
            }),
            final(self)@[id as int] == name@,
            old(self).wf() ==> final(self).wf(),
    {
        proof {
            lemma_span_props(self@, differs_from(name@));
        }
        let (id, _is_new) = self.allocate_with_flag(name);
        id
    }

    /// The id of `name`, and whether the name is new to the table.
    pub fn allocate_with_flag(&mut self, name: &str) -> (out: (usize, bool))
        ensures
            out.0 == position_of(old(self)@, name@),
            out.1 == (out.0 == old(self)@.len()),
            final(self)@ == (if out.1 {
                old(self)@.push(name@)
            } else {
                old(self)@
            }),
            final(self)@[out.0 as int] == name@,
            old(self).wf() ==> final(self).wf(),
    {
        intern_name(&mut self.id_to_name, name)
    }
}

/// The matrix of a system under construction, column by column. An entry is a row
/// and a value; a column may hold several entries for one row, which stand for their
/// sum.
#[derive(Debug, Clone)]
pub struct SparseBuilder<T> {
    pub n: usize,
    pub col_entries: Vec<Vec<(usize, T)>>,
}

/// The test for an entry to lie in row `r`.
pub open spec fn in_row<T>(r: usize) -> spec_fn((usize, T)) -> bool {
    |e: (usize, T)| e.0 == r
}

/// The rows of the entries do not fall.
pub open spec fn rows_ascend<T>(s: Seq<(usize, T)>) -> bool {
    forall|i: int, j: int| 0 <= i < j < s.len() ==> s[i].0 <= s[j].0
}

/// `out` holds the entries of `inp` ordered by row, the entries of one row in the
/// order in which they stand in `inp`.
pub open spec fn sorted_by_row<T>(out: Seq<(usize, T)>, inp: Seq<(usize, T)>) -> bool {
    &&& rows_ascend(out)
    &&& forall|r: usize| #[trigger] out.filter(in_row::<T>(r)) == inp.filter(in_row::<T>(r))
}

/// The row of an entry as a signed index.
pub open spec fn row_index<T>(e: (usize, T)) -> i64 {
    e.0 as i64
}

/// The number of entries in the columns before column `c`, as a signed index.
pub open spec fn column_start<T>(cols: Seq<Seq<(usize, T)>>, c: int) -> i64 {
    (cols.take(c).flatten().len() as usize) as i64
}

/// The columns with one more entry: `value` in row `row` at the end of column `col`.
/// A column outside the matrix takes no entry.
pub open spec fn added<T>(cols: Seq<Seq<(usize, T)>>, row: usize, col: usize, value: T) -> Seq<
    Seq<(usize, T)>,
> {
    if col < cols.len() {
        cols.update(col as int, cols[col as int].push((row, value)))
    } else {
        cols
    }
}

/// The entry with the same row and the value `zero`.
pub open spec fn cleared<T>(zero: T) -> spec_fn((usize, T)) -> (usize, T) {
    |e: (usize, T)| (e.0, zero)
}

fn sort_by_row<T: Copy>(col: &Vec<(usize, T)>) -> (out: Vec<(usize, T)>)
    ensures
        sorted_by_row(out@, col@),
        out.len() == col.len(),
{
    let mut out: Vec<(usize, T)> = Vec::new();
    let mut i: usize = 0;
    proof {
        assert(col@.take(0) =~= out@);
    }
    while i < col.len()
        invariant
            i <= col.len(),
            out.len() == i,
            sorted_by_row(out@, col@.take(i as int)),
        decreases col.len() - i,
    {
        let x = col[i];
        let mut p: usize = out.len();
        while p > 0 && out[p - 1].0 > x.0
            invariant
                p <= out.len(),
                forall|k: int| p <= k < out.len() ==> (#[trigger] out@[k]).0 > x.0,
            decreases p,
        {
            p -= 1;
        }
        let ghost before = out@;
        let ghost seen = col@.take(i as int);
        out.insert(p, x);
        proof {
            let head = before.take(p as int);
            let tail = before.skip(p as int);
            assert(before =~= head + tail);
            assert(out@ =~= head + seq![x] + tail);
            assert(col@.take(i + 1) =~= seen.push(x));
            assert forall|a: int, b: int| 0 <= a < b < out@.len() implies out@[a].0
                <= out@[b].0 by {
                if a < p && b > p {
                } else if a < p && b == p {
                } else if a == p {
                } else if a > p {
                }
            }
            assert forall|r: usize| #[trigger]
                out@.filter(in_row::<T>(r)) == col@.take(i + 1).filter(in_row::<T>(r)) by {
                let f = in_row::<T>(r);
                Seq::filter_distributes_over_add(head, tail, f);
                seen.lemma_filter_push(x, f);
                Seq::<(usize, T)>::empty().lemma_filter_push(x, f);
                if x.0 == r {
                    tail.lemma_all_neg_filter_empty(f);
                }
            }
        }
        i += 1;
    }
    proof {
        assert(col@.take(col.len() as int) =~= col@);
    }
    out
}

impl<T> View for SparseBuilder<T> {
    type V = Seq<Seq<(usize, T)>>;

    /// The entries of each column.
    open spec fn view(&self) -> Seq<Seq<(usize, T)>> {
        Seq::new(self.col_entries@.len(), |c: int| self.col_entries@[c]@)
    }
}

impl<T: Copy> SparseBuilder<T> {
    /// There are as many columns as the dimension says.
    pub open spec fn wf(&self) -> bool {
        self.col_entries@.len() == self.n
    }

    /// Every entry lies in a row of the matrix.
    pub open spec fn rows_in_range(&self) -> bool {
        forall|c: int, k: int|
            0 <= c < self@.len() && 0 <= k < self@[c].len() ==> (#[trigger] self@[c][k]).0
                < self.n
    }

    /// An empty matrix of dimension `n`.
    pub fn new(n: usize) -> (b: Self)
        ensures
            b.wf(),
            b.n == n,
            b@ == Seq::new(n as nat, |c: int| Seq::<(usize, T)>::empty()),
    {
        let mut cols: Vec<Vec<(usize, T)>> = Vec::new();
        let mut c: usize = 0;
        while c < n
            invariant
                c <= n,
                cols.len() == c,
                forall|k: int| 0 <= k < c ==> cols@[k]@ == Seq::<(usize, T)>::empty(),
            decreases n - c,
        {
            cols.push(Vec::new());
            c += 1;
        }
        SparseBuilder { n: n, col_entries: cols }
    }

    /// Adds `value` at (`row`, `col`). The entry is appended to its column, whatever
    /// the column holds already. A column outside the matrix is ignored.
    pub fn insert(&mut self, col: usize, row: usize, value: T)
        requires
            old(self).wf(),
        ensures
            final(self).wf(),
            final(self).n == old(self).n,
            final(self)@ == added(old(self)@, row, col, value),
            old(self).rows_in_range() && row < old(self).n ==> final(self).rows_in_range(),
    {
        if col >= self.n {
            return;
        }
        self.col_entries[col].push((row, value));
        proof {
            if old(self).rows_in_range() && row < old(self).n {
                assert forall|c: int, k: int|
                    0 <= c < self@.len() && 0 <= k < self@[c].len() implies (
                #[trigger] self@[c][k]).0 < self.n by {
                    if !(c == col && k == old(self)@[c].len()) {
                        assert(self@[c][k] == old(self)@[c][k]);
                    }
                }
            }
        }
    }

    /// Sets every value to `zero` and keeps the entries, so that the pattern stays.
    pub fn clear_values(&mut self, zero: T)
        requires
            old(self).wf(),
        ensures
            final(self).wf(),
            final(self).n == old(self).n,
            final(self)@ == Seq::new(
                old(self)@.len(),
                |c: int| old(self)@[c].map_values(cleared(zero)),
            ),
    {
        let mut c: usize = 0;
        while c < self.col_entries.len()
            invariant
                c <= self.col_entries.len(),
                self.n == old(self).n,
                self@.len() == old(self)@.len(),
                self.wf(),
                forall|k: int|
                    0 <= k < c ==> #[trigger] self@[k] == old(self)@[k].map_values(
                        cleared(zero),
                    ),
                forall|k: int| c <= k < self@.len() ==> #[trigger] self@[k] == old(self)@[k],
            decreases self.col_entries.len() - c,
        {
            let ghost column = self@[c as int];
            let ghost at_entry = self@;
            let len = self.col_entries[c].len();
            let mut k: usize = 0;
            while k < len
                invariant
                    k <= len,
                    c < self.col_entries.len(),
                    len == column.len(),
                    self.n == old(self).n,
                    self.wf(),
                    self@.len() == at_entry.len(),
                    self@[c as int].len() == len,
                    forall|j: int| 0 <= j < k ==> #[trigger] self@[c as int][j] == (
                        column[j].0,
                        zero,
                    ),
                    forall|j: int| k <= j < len ==> #[trigger] self@[c as int][j] == column[j],
                    forall|d: int|
                        0 <= d < self@.len() && d != c ==> #[trigger] self@[d] == at_entry[d],
                decreases len - k,
            {
                let row = self.col_entries[c][k].0;
                let ghost here = self@;
                self.col_entries[c][k] = (row, zero);
                proof {
                    assert forall|d: int| 0 <= d < self@.len() && d != c implies #[trigger] self@[d]
                        == at_entry[d] by {
                        assert(self@[d] == here[d]);
                    }
                }
                k += 1;
            }
            c += 1;
        }
    }

    /// Grows the matrix to dimension `new_n` by empty columns. It never shrinks.
    pub fn resize(&mut self, new_n: usize)
        requires
            old(self).wf(),
        ensures
            final(self).wf(),
            final(self).n == (if new_n <= old(self).n {
                old(self).n
            } else {
                new_n
            }),
            final(self)@ == old(self)@ + Seq::new(
                (final(self).n - old(self).n) as nat,
                |c: int| Seq::<(usize, T)>::empty(),
            ),
            old(self).rows_in_range() ==> final(self).rows_in_range(),
    {
        if new_n <= self.n {
            return;
        }
        while self.col_entries.len() < new_n
            invariant
                old(self).n <= self.col_entries.len() <= new_n,
                self.n == old(self).n,
                self@ == old(self)@ + Seq::new(
                    (self.col_entries.len() - old(self).n) as nat,
                    |c: int| Seq::<(usize, T)>::empty(),
                ),
            decreases new_n - self.col_entries.len(),
        {
            let ghost here = self@;
            self.col_entries.push(Vec::new());
            proof {
                assert(self@ =~= here.push(Seq::<(usize, T)>::empty()));
            }
        }
        self.n = new_n;
        proof {
            if old(self).rows_in_range() {
                assert forall|c: int, k: int|
                    0 <= c < self@.len() && 0 <= k < self@[c].len() implies (
                #[trigger] self@[c][k]).0 < self.n by {
                }
            }
        }
    }

    /// Orders every column by row and hands out the matrix in compressed-column form:
    /// the start of each column among the entries, and the row and the value of each
    /// entry, column after column.
    ///
    /// Entries of one row stay apart and keep the order in which they were inserted.
    /// The indices are signed, as sparse solvers take them.
    pub fn finalize(&mut self) -> (out: (Vec<i64>, Vec<i64>, Vec<T>))
        requires
            old(self).wf(),
        ensures
            final(self).wf(),
            final(self).n == old(self).n,
            final(self)@.len() == old(self)@.len(),
            forall|c: int|
                0 <= c < old(self)@.len() ==> sorted_by_row(
                    #[trigger] final(self)@[c],
                    old(self)@[c],
                ),
            out.0@.len() == old(self).n + 1,
            forall|c: int|
                0 <= c <= old(self).n ==> #[trigger] out.0@[c] == column_start(final(self)@, c),
            out.1@ == final(self)@.flatten().map_values(|e: (usize, T)| row_index(e)),
            out.2@ == final(self)@.flatten().map_values(|e: (usize, T)| e.1),
            old(self).rows_in_range() ==> final(self).rows_in_range(),
            old(self).rows_in_range() && old(self).n <= i64::MAX && out.1@.len() <= i64::MAX
                ==> pattern_ok(old(self).n as nat, out.0@, out.1@),
    {
        let mut ap: Vec<i64> = Vec::new();
        let mut ai: Vec<i64> = Vec::new();
        let mut ax: Vec<T> = Vec::new();
        ap.push(0);
        let mut c: usize = 0;
        while c < self.col_entries.len()
            invariant
                c <= self.col_entries.len(),
                self.wf(),
                self.n == old(self).n,
                self@.len() == old(self)@.len(),
                forall|k: int|
                    0 <= k < c ==> sorted_by_row(#[trigger] self@[k], old(self)@[k]),
                forall|k: int| c <= k < self@.len() ==> #[trigger] self@[k] == old(self)@[k],
                ap@.len() == c + 1,
                forall|k: int| 0 <= k <= c ==> #[trigger] ap@[k] == column_start(self@, k),
                ai@ == self@.take(c as int).flatten().map_values(|e: (usize, T)| row_index(e)),
                ax@ == self@.take(c as int).flatten().map_values(|e: (usize, T)| e.1),
            decreases self.col_entries.len() - c,
        {
            let ghost here = self@;
            let sorted = sort_by_row(&self.col_entries[c]);
            let ghost done = here.take(c as int).flatten();
            let mut k: usize = 0;
            while k < sorted.len()
                invariant
                    k <= sorted.len(),
                    ai@ == (done + sorted@.take(k as int)).map_values(
                        |e: (usize, T)| row_index(e),
                    ),
                    ax@ == (done + sorted@.take(k as int)).map_values(|e: (usize, T)| e.1),
                decreases sorted.len() - k,
            {
                let e = sorted[k];
                ai.push(
                    #[verifier::truncate]
                    (e.0 as i64),
                );
                ax.push(e.1);
                k += 1;
            }
            self.col_entries[c] = sorted;
            ap.push(
                #[verifier::truncate]
                (ai.len() as i64),
            );
            proof {
                assert(self@.take(c + 1) =~= here.take(c as int).push(sorted@));
                here.take(c as int).lemma_flatten_push(sorted@);
                assert forall|k: int| 0 <= k <= c + 1 implies #[trigger] ap@[k] == column_start(
                    self@,
                    k,
                ) by {
                    if k <= c {
                        assert(self@.take(k) =~= here.take(k));
                    }
                }
                assert forall|k: int| c + 1 <= k < self@.len() implies #[trigger] self@[k]
                    == old(self)@[k] by {
                    assert(self@[k] == here[k]);
                }
                assert forall|k: int| 0 <= k < c + 1 implies sorted_by_row(
                    #[trigger] self@[k],
                    old(self)@[k],
                ) by {
                    if k < c {
                        assert(sorted_by_row(here[k], old(self)@[k]));
                    } else {
                        assert(here[k] == old(self)@[k]);
                    }
                }
            }
            c += 1;
        }
        proof {
            assert(self@.take(self@.len() as int) =~= self@);
            if old(self).rows_in_range() {
                assert forall|c: int, k: int|
                    0 <= c < self@.len() && 0 <= k < self@[c].len() implies (
                #[trigger] self@[c][k]).0 < self.n by {
                    lemma_sorted_keeps_entries(self@[c], old(self)@[c], k);
                }
            }
        }
        proof {
            if old(self).rows_in_range() && old(self).n <= i64::MAX && ai@.len() <= i64::MAX {
                assert(ai@.len() == ai.len());
                lemma_pattern_ok(self@, ap@, ai@);
            }
        }
        (ap, ai, ax)
    }
}

/// What a device gets to write its contribution with: the matrix, the right-hand side
/// and the table of auxiliary unknowns of a system, and the scalars that the
/// contribution depends on.
pub struct StampContext<'a, T> {
    pub builder: &'a mut SparseBuilder<T>,
    pub rhs: &'a mut Vec<T>,
    pub aux: &'a mut AuxVarTable,
    pub node_count: usize,
    pub gmin: T,
    pub source_scale: T,
    pub zero: T,
}

impl<'a, T: Copy> StampContext<'a, T> {
    /// The unknowns of the system are its nodes and then its auxiliary unknowns, and
    /// the matrix and the right-hand side have one row for each.
    pub open spec fn wf(&self) -> bool {
        &&& self.builder.wf()
        &&& self.builder.n == self.node_count + self.aux@.len()
        &&& self.rhs@.len() == self.builder.n
    }

    /// Adds `value` to the matrix at row `i` and column `j`.
    pub fn add(&mut self, i: usize, j: usize, value: T)
        requires
            old(self).builder.wf(),
        ensures
            final(self).builder.wf(),
            final(self).builder.n == old(self).builder.n,
            final(self).builder@ == added(old(self).builder@, i, j, value),
            old(self).builder.rows_in_range() && i < old(self).builder.n
                ==> final(self).builder.rows_in_range(),
            final(self).rhs@ == old(self).rhs@,
            final(self).aux@ == old(self).aux@,
            final(self).node_count == old(self).node_count,
            final(self).gmin == old(self).gmin,
            final(self).source_scale == old(self).source_scale,
            final(self).zero == old(self).zero,
            *final(final(self).builder) == *final(old(self).builder),
            *final(final(self).rhs) == *final(old(self).rhs),
            *final(final(self).aux) == *final(old(self).aux),
    {
        self.builder.insert(j, i, value);
    }

    /// The index of the auxiliary unknown `name` in the system: the unknowns of the
    /// nodes come first, the auxiliary ones follow in the order of their ids.
    ///
    /// A name that is new gets the next id, and the system grows by one unknown: the
    /// matrix by an empty column, the right-hand side by `zero`.
    pub fn allocate_aux(&mut self, name: &str) -> (index: usize)
        requires
            old(self).wf(),
            old(self).builder.n < usize::MAX,
        ensures
            final(self).wf(),
            index == old(self).node_count + position_of(old(self).aux@, name@),
            index < final(self).builder.n,
            final(self).aux@[index - old(self).node_count] == name@,
            index < old(self).builder.n ==> {
                &&& final(self).aux@ == old(self).aux@
                &&& final(self).builder@ == old(self).builder@
                &&& final(self).rhs@ == old(self).rhs@
            },
            index == old(self).builder.n ==> {
                &&& final(self).aux@ == old(self).aux@.push(name@)
                &&& final(self).builder@ == old(self).builder@.push(Seq::empty())
                &&& final(self).rhs@ == old(self).rhs@.push(old(self).zero)
            },
            old(self).builder.rows_in_range() ==> final(self).builder.rows_in_range(),
            old(self).aux.wf() ==> final(self).aux.wf(),
            final(self).node_count == old(self).node_count,
            final(self).gmin == old(self).gmin,
            final(self).source_scale == old(self).source_scale,
            final(self).zero == old(self).zero,
            *final(final(self).builder) == *final(old(self).builder),
            *final(final(self).rhs) == *final(old(self).rhs),
            *final(final(self).aux) == *final(old(self).aux),
    {
        proof {
            lemma_span_props(self.aux@, differs_from(name@));
        }
        let (aux_id, is_new) = self.aux.allocate_with_flag(name);
        let index = self.node_count + aux_id;
        if is_new {
            self.builder.resize(index + 1);
            self.rhs.push(self.zero);
        }
        index
    }
}

/// A system under construction: the matrix, the right-hand side and the auxiliary
/// unknowns, for a circuit of `node_count` nodes. `zero` and `one` are the two
/// constants of the scalar.
#[derive(Debug)]
pub struct MnaBuilder<T> {
    pub node_count: usize,
    pub size: usize,
    pub rhs: Vec<T>,
    pub builder: SparseBuilder<T>,
    pub aux: AuxVarTable,
    pub zero: T,
    pub one: T,
}

impl<T: Copy> MnaBuilder<T> {
    /// The unknowns are the nodes and then the auxiliary unknowns, and the matrix and
    /// the right-hand side have one row for each.
    pub open spec fn wf(&self) -> bool {
        &&& self.builder.wf()
        &&& self.builder.n == self.node_count + self.aux@.len()
        &&& self.rhs@.len() == self.builder.n
    }

    /// The empty system of a circuit of `node_count` nodes: no entry, no auxiliary
    /// unknown, and a right-hand side of `zero`.
    pub fn new(node_count: usize, zero: T, one: T) -> (mna: Self)
        ensures
            mna.wf(),
            mna.node_count == node_count,
            mna.size == node_count,
            mna.rhs@ == Seq::new(node_count as nat, |i: int| zero),
            mna.builder@ == Seq::new(node_count as nat, |c: int| Seq::<(usize, T)>::empty()),
            mna.builder.rows_in_range(),
            mna.aux@ == Seq::<Seq<char>>::empty(),
            mna.aux.wf(),
            mna.zero == zero,
            mna.one == one,
    {
        let mut rhs: Vec<T> = Vec::new();
        let mut i: usize = 0;
        while i < node_count
            invariant
                i <= node_count,
                rhs@ == Seq::new(i as nat, |k: int| zero),
            decreases node_count - i,
        {
            rhs.push(zero);
            i += 1;
        }
        MnaBuilder {
            node_count: node_count,
            size: node_count,
            rhs: rhs,
            builder: SparseBuilder::new(node_count),
            aux: AuxVarTable::new(),
            zero: zero,
            one: one,
        }
    }

    /// The context for stamping with no added conductance (`gmin` is `zero`) and
    /// sources at their full value (`source_scale` is `one`).
    pub fn context(&mut self) -> (ctx: StampContext<'_, T>)
        ensures
            *ctx.builder == old(self).builder,
            *ctx.rhs == old(self).rhs,
            *ctx.aux == old(self).aux,
            ctx.node_count == old(self).node_count,
            ctx.gmin == old(self).zero,
            ctx.source_scale == old(self).one,
            ctx.zero == old(self).zero,
            final(self).builder == *final(ctx.builder),
            final(self).rhs == *final(ctx.rhs),
            final(self).aux == *final(ctx.aux),
            final(self).node_count == old(self).node_count,
            final(self).size == old(self).size,
            final(self).zero == old(self).zero,
            final(self).one == old(self).one,
    {
        let gmin = self.zero;
        let source_scale = self.one;
        self.context_with(gmin, source_scale)
    }

    /// The context for stamping with the given `gmin` and `source_scale`. What is
    /// written through the context is written to this system.
    pub fn context_with(&mut self, gmin: T, source_scale: T) -> (ctx: StampContext<'_, T>)
        ensures
            *ctx.builder == old(self).builder,
            *ctx.rhs == old(self).rhs,
            *ctx.aux == old(self).aux,
            ctx.node_count == old(self).node_count,
            ctx.gmin == gmin,
            ctx.source_scale == source_scale,
            ctx.zero == old(self).zero,
            final(self).builder == *final(ctx.builder),
            final(self).rhs == *final(ctx.rhs),
            final(self).aux == *final(ctx.aux),
            final(self).node_count == old(self).node_count,
            final(self).size == old(self).size,
            final(self).zero == old(self).zero,
            final(self).one == old(self).one,
    {
        StampContext {
            builder: &mut self.builder,
            rhs: &mut self.rhs,
            aux: &mut self.aux,
            node_count: self.node_count,
            gmin: gmin,
            source_scale: source_scale,
            zero: self.zero,
        }
    }

    /// Pins the reference node `gnd` by an entry `one` on its diagonal, so that the
    /// matrix is regular also where no device touches that node, and hands out the
    /// matrix in compressed-column form.
    pub fn assemble(&mut self, gnd: usize) -> (out: (Vec<i64>, Vec<i64>, Vec<T>))
        requires
            old(self).builder.wf(),
        ensures
            final(self).builder.wf(),
            final(self).builder.n == old(self).builder.n,
            final(self).builder@.len() == old(self).builder@.len(),
            forall|c: int|
                0 <= c < old(self).builder@.len() ==> sorted_by_row(
                    #[trigger] final(self).builder@[c],
                    added(old(self).builder@, gnd, gnd, old(self).one)[c],
                ),
            out.0@.len() == old(self).builder.n + 1,
            forall|c: int|
                0 <= c <= old(self).builder.n ==> #[trigger] out.0@[c] == column_start(
                    final(self).builder@,
                    c,
                ),
            out.1@ == final(self).builder@.flatten().map_values(|e: (usize, T)| row_index(e)),
            out.2@ == final(self).builder@.flatten().map_values(|e: (usize, T)| e.1),
            old(self).builder.rows_in_range() ==> final(self).builder.rows_in_range(),
            gnd < old(self).builder.n ==> final(self).builder@[gnd as int].contains(
                (gnd, old(self).one),
            ),
            old(self).builder.rows_in_range() && old(self).builder.n <= i64::MAX
                && out.1@.len() <= i64::MAX ==> pattern_ok(
                old(self).builder.n as nat,
                out.0@,
                out.1@,
            ),
            final(self).rhs == old(self).rhs,
            final(self).aux == old(self).aux,
            final(self).node_count == old(self).node_count,
            final(self).size == old(self).size,
            final(self).zero == old(self).zero,
            final(self).one == old(self).one,
    {
        self.builder.insert(gnd, gnd, self.one);
        let ghost pinned = self.builder@;
        let out = self.builder.finalize();
        proof {
            if gnd < old(self).builder.n {
                let column = pinned[gnd as int];
                lemma_sorted_keeps_all(self.builder@[gnd as int], column, column.len() - 1);
            }
        }
        out
    }
}

/// Ordering by row brings in no entry of its own.
pub proof fn lemma_sorted_keeps_entries<T>(out: Seq<(usize, T)>, inp: Seq<(usize, T)>, k: int)
    requires
        sorted_by_row(out, inp),
        0 <= k < out.len(),
    ensures
        inp.contains(out[k]),
{
    let f = in_row::<T>(out[k].0);
    out.lemma_filter_contains(f, k);
    inp.lemma_filter_contains_rev(f, out[k]);
}

/// Ordering by row loses no entry.
pub proof fn lemma_sorted_keeps_all<T>(out: Seq<(usize, T)>, inp: Seq<(usize, T)>, k: int)
    requires
        sorted_by_row(out, inp),
        0 <= k < inp.len(),
    ensures
        out.contains(inp[k]),
{
    let f = in_row::<T>(inp[k].0);
    out.lemma_filter_contains_rev(f, inp[k]);
}

/// There is one way only to order entries by row and keep the entries of each row in
/// their order.
pub proof fn lemma_sorted_by_row_unique<T>(
    a: Seq<(usize, T)>,
    b: Seq<(usize, T)>,
    inp: Seq<(usize, T)>,
)
    requires
        sorted_by_row(a, inp),
        sorted_by_row(b, inp),
    ensures
        a == b,
    decreases a.len(),
{
    if a.len() == 0 || b.len() == 0 {
        if a.len() > 0 {
            lemma_sorted_keeps_entries(a, inp, 0);
            let f = in_row::<T>(a[0].0);
            inp.lemma_filter_contains(f, inp.index_of(a[0]));
            b.lemma_filter_len(f);
        }
        if b.len() > 0 {
            lemma_sorted_keeps_entries(b, inp, 0);
            let f = in_row::<T>(b[0].0);
            inp.lemma_filter_contains(f, inp.index_of(b[0]));
            a.lemma_filter_len(f);
        }
    } else {
        let la = a.last();
        let lb = b.last();
        let fa = in_row::<T>(la.0);
        let fb = in_row::<T>(lb.0);
        // The last entry of either lies in the greatest row of both.
        a.lemma_filter_contains(fa, a.len() - 1);
        b.lemma_filter_contains_rev(fa, la);
        b.lemma_filter_contains(fb, b.len() - 1);
        a.lemma_filter_contains_rev(fb, lb);
        // So it is the last entry of that row.
        let da = a.drop_last();
        let db = b.drop_last();
        assert(a.filter(fa) == da.filter(fa).push(la)) by {
            reveal(Seq::filter);
        }
        assert(b.filter(fa) == db.filter(fa).push(lb)) by {
            reveal(Seq::filter);
        }
        assert(db.filter(fa).push(lb).last() == lb);
        assert forall|r: usize| #[trigger] db.filter(in_row::<T>(r)) == da.filter(
            in_row::<T>(r),
        ) by {
            let f = in_row::<T>(r);
            assert(a.filter(f) == inp.filter(f));
            assert(b.filter(f) == inp.filter(f));
            reveal(Seq::filter);
            if r == la.0 {
                assert(db.filter(f) =~= db.filter(f).push(lb).drop_last());
            }
        }
        lemma_sorted_by_row_unique(da, db, da);
        assert(b =~= db.push(lb));
    }
}

/// Ordering entries that are ordered by row already changes nothing.
pub proof fn lemma_sorted_is_fixed<T>(out: Seq<(usize, T)>, inp: Seq<(usize, T)>)
    requires
        rows_ascend(inp),
        sorted_by_row(out, inp),
    ensures
        out == inp,
{
    lemma_sorted_by_row_unique(out, inp, inp);
}

/// What a compressed-column pattern of dimension `n` must satisfy: one start for
/// each column and one past the last, the first of them zero, none smaller than the
/// one before, the last the number of entries; and every row inside the matrix.
pub open spec fn pattern_ok(n: nat, ap: Seq<i64>, ai: Seq<i64>) -> bool {
    &&& ap.len() == n + 1
    &&& ap[0] == 0
    &&& forall|c: int| 0 <= c < n ==> #[trigger] ap[c] <= ap[c + 1]
    &&& ap[n as int] == ai.len()
    &&& forall|k: int| 0 <= k < ai.len() ==> 0 <= #[trigger] ai[k] < n
}

/// The entries in the first `c` columns are among those of all columns.
proof fn lemma_flatten_prefix<T>(cols: Seq<Seq<(usize, T)>>, c: int)
    requires
        0 <= c <= cols.len(),
    ensures
        cols.take(c).flatten().len() <= cols.flatten().len(),
        c < cols.len() ==> cols.take(c + 1).flatten() == cols.take(c).flatten() + cols[c],
    decreases cols.len() - c,
{
    if c < cols.len() {
        assert(cols.take(c + 1) =~= cols.take(c).push(cols[c]));
        cols.take(c).lemma_flatten_push(cols[c]);
        lemma_flatten_prefix(cols, c + 1);
    } else {
        assert(cols.take(c) =~= cols);
    }
}

/// Every entry of the flattened columns is an entry of one of the columns.
proof fn lemma_flatten_entry<T>(cols: Seq<Seq<(usize, T)>>, k: int) -> (at: (int, int))
    requires
        0 <= k < cols.flatten().len(),
    ensures
        0 <= at.0 < cols.len(),
        0 <= at.1 < cols[at.0].len(),
        cols[at.0][at.1] == cols.flatten()[k],
    decreases cols.len(),
{
    if cols.len() == 0 {
        (0, 0)
    } else if k < cols.first().len() {
        (0, k)
    } else {
        let rest = cols.drop_first();
        let at = lemma_flatten_entry(rest, k - cols.first().len());
        (at.0 + 1, at.1)
    }
}

/// The arrays of a matrix in compressed-column form are a well-formed pattern, where
/// every entry lies in a row of the matrix and the dimension and the number of entries
/// fit a signed index.
pub proof fn lemma_pattern_ok<T>(cols: Seq<Seq<(usize, T)>>, ap: Seq<i64>, ai: Seq<i64>)
    requires
        ap.len() == cols.len() + 1,
        forall|c: int| 0 <= c <= cols.len() ==> #[trigger] ap[c] == column_start(cols, c),
        ai == cols.flatten().map_values(|e: (usize, T)| row_index(e)),
        forall|c: int, k: int|
            0 <= c < cols.len() && 0 <= k < cols[c].len() ==> (#[trigger] cols[c][k]).0
                < cols.len(),
        cols.len() <= i64::MAX,
        cols.flatten().len() <= i64::MAX,
        cols.flatten().len() <= usize::MAX,
    ensures
        pattern_ok(cols.len(), ap, ai),
{
    assert(cols.take(cols.len() as int) =~= cols);
    assert forall|c: int| 0 <= c < cols.len() implies #[trigger] ap[c] <= ap[c + 1] by {
        lemma_flatten_prefix(cols, c);
        lemma_flatten_prefix(cols, c + 1);
    }
    assert forall|k: int| 0 <= k < ai.len() implies 0 <= #[trigger] ai[k] < cols.len() by {
        let at = lemma_flatten_entry(cols, k);
    }
}

} // verus!
