//! The text form of results. Numbers come in as text already, so that the layout is
//! all that is decided here.

use crate::result_store::{AnalysisType, RunStatus};
use crate::text::{decimal, decimal_string};
use vstd::prelude::*;

verus! {

/// The name of a kind of analysis.
pub open spec fn analysis_text(a: AnalysisType) -> Seq<char> {
    match a {
        AnalysisType::Op => "Op"@,
        AnalysisType::Dc => "Dc"@,
        AnalysisType::Tran => "Tran"@,
        AnalysisType::Ac => "Ac"@,
    }
}

/// The name of a kind of analysis.
pub fn analysis_name(a: AnalysisType) -> (out: &'static str)
    ensures
        out@ == analysis_text(a),
{
    match a {
        AnalysisType::Op => "Op",
        AnalysisType::Dc => "Dc",
        AnalysisType::Tran => "Tran",
        AnalysisType::Ac => "Ac",
    }
}

/// The name of the way a run ended.
pub open spec fn status_text(s: RunStatus) -> Seq<char> {
    match s {
        RunStatus::Converged => "Converged"@,
        RunStatus::MaxIters => "MaxIters"@,
        RunStatus::Failed => "Failed"@,
    }
}

/// The name of the way a run ended.
pub fn status_name(s: RunStatus) -> (out: &'static str)
    ensures
        out@ == status_text(s),
{
    match s {
        RunStatus::Converged => "Converged",
        RunStatus::MaxIters => "MaxIters",
        RunStatus::Failed => "Failed",
    }
}

/// The name of the signal at position `i`: the name given for it, or `n` and the
/// position where none is given.
pub open spec fn signal_name(names: Seq<Seq<char>>, i: int) -> Seq<char> {
    if 0 <= i < names.len() {
        names[i]
    } else {
        "n"@ + decimal(i as nat)
    }
}

/// One line for each name: a dash, a blank and the name.
pub open spec fn signal_lines(names: Seq<Seq<char>>) -> Seq<char>
    decreases names.len(),
{
    if names.len() == 0 {
        Seq::empty()
    } else {
        signal_lines(names.drop_last()) + "- "@ + names.last() + "\n"@
    }
}

/// One line for each of the first `n` values: the name of its signal, a blank and
/// the value.
pub open spec fn value_lines(names: Seq<Seq<char>>, values: Seq<Seq<char>>, n: int) -> Seq<char>
    decreases n,
{
    if n <= 0 {
        Seq::empty()
    } else {
        value_lines(names, values, n - 1) + signal_name(names, n - 1) + " "@ + values[n - 1]
            + "\n"@
    }
}

/// The text of the result of a run at one point.
pub open spec fn psf_spec(
    analysis: AnalysisType,
    status: RunStatus,
    iterations: nat,
    names: Seq<Seq<char>>,
    values: Seq<Seq<char>>,
) -> Seq<char> {
    "PSF_TEXT\n"@ + "analysis="@ + analysis_text(analysis) + "\n"@ + "status="@ + status_text(
        status,
    ) + "\n"@ + "iterations="@ + decimal(iterations) + "\n"@ + "signals:\n"@ + signal_lines(names)
        + "values:\n"@ + value_lines(names, values, values.len() as int)
}

/// Writes the result of a run at one point: a head line, the analysis, the status
/// and the number of iterations, then the names of the signals and then their values.
pub fn psf_text(
    analysis: AnalysisType,
    status: RunStatus,
    iterations: usize,
    node_names: &Vec<String>,
    values: &Vec<String>,
) -> (out: String)
    ensures
        out@ == psf_spec(
            analysis,
            status,
            iterations as nat,
            node_names.deep_view(),
            values.deep_view(),
        ),
{
    let ghost names = node_names.deep_view();
    let ghost vals = values.deep_view();
    let mut out = String::from_str("PSF_TEXT\n");
    out.append("analysis=");
    out.append(analysis_name(analysis));
    out.append("\n");
    out.append("status=");
    out.append(status_name(status));
    out.append("\n");
    out.append("iterations=");
    out.append(decimal_string(iterations).as_str());
    out.append("\n");
    out.append("signals:\n");
    let ghost head = out@;
    let mut i: usize = 0;
    while i < node_names.len()
        invariant
            i <= node_names.len(),
            names == node_names.deep_view(),
            out@ == head + signal_lines(names.take(i as int)),
        decreases node_names.len() - i,
    {
        out.append("- ");
        out.append(node_names[i].as_str());
        out.append("\n");
        proof {
            assert(names.take(i + 1).drop_last() =~= names.take(i as int));
        }
        i += 1;
    }
    proof {
        assert(names.take(node_names.len() as int) =~= names);
    }
    out.append("values:\n");
    let ghost head2 = out@;
    let mut k: usize = 0;
    while k < values.len()
        invariant
            k <= values.len(),
            names == node_names.deep_view(),
            vals == values.deep_view(),
            out@ == head2 + value_lines(names, vals, k as int),
        decreases values.len() - k,
    {
        if k < node_names.len() {
            out.append(node_names[k].as_str());
        } else {
            out.append("n");
            out.append(decimal_string(k).as_str());
        }
        out.append(" ");
        out.append(values[k].as_str());
        out.append("\n");
        k += 1;
    }
    out
}

/// The items of a row, each with a blank before it but the first.
pub open spec fn row_text(row: Seq<Seq<char>>) -> Seq<char>
    decreases row.len(),
{
    if row.len() == 0 {
        Seq::empty()
    } else if row.len() == 1 {
        row[0]
    } else {
        row_text(row.drop_last()) + " "@ + row.last()
    }
}

/// One line for each item.
pub open spec fn item_lines(items: Seq<Seq<char>>) -> Seq<char>
    decreases items.len(),
{
    if items.len() == 0 {
        Seq::empty()
    } else {
        item_lines(items.drop_last()) + items.last() + "\n"@
    }
}

/// One line for each row.
pub open spec fn row_lines(rows: Seq<Seq<Seq<char>>>) -> Seq<char>
    decreases rows.len(),
{
    if rows.len() == 0 {
        Seq::empty()
    } else {
        row_lines(rows.drop_last()) + row_text(rows.last()) + "\n"@
    }
}

/// The text of a table of results.
pub open spec fn table_spec(
    title: Seq<char>,
    signals: Seq<Seq<char>>,
    rows: Seq<Seq<Seq<char>>>,
) -> Seq<char> {
    "PSF_TEXT\n"@ + "["@ + title + "]\n"@ + "points = "@ + decimal(rows.len()) + "\n"@
        + "[Signals]\n"@ + item_lines(signals) + "[Data]\n"@ + row_lines(rows)
}

fn append_row(out: &mut String, row: &Vec<String>)
    ensures
        final(out)@ == old(out)@ + row_text(row.deep_view()) + "\n"@,
{
    let ghost items = row.deep_view();
    let ghost head = out@;
    let mut i: usize = 0;
    while i < row.len()
        invariant
            i <= row.len(),
            items == row.deep_view(),
            out@ == head + row_text(items.take(i as int)),
        decreases row.len() - i,
    {
        if i > 0 {
            out.append(" ");
        }
        out.append(row[i].as_str());
        proof {
            assert(items.take(i + 1).drop_last() =~= items.take(i as int));
        }
        i += 1;
    }
    proof {
        assert(items.take(row.len() as int) =~= items);
    }
    out.append("\n");
}

/// Writes a table of results, as a sweep, a transient analysis or an analysis over
/// frequencies gives it: a head line, the title in brackets, the number of rows, the
/// names of the signals, one on a line, and the rows, the items of a row parted by
/// blanks.
pub fn psf_table(title: &str, signals: &Vec<String>, rows: &Vec<Vec<String>>) -> (out: String)
    ensures
        out@ == table_spec(title@, signals.deep_view(), rows.deep_view()),
{
    let ghost names = signals.deep_view();
    let ghost all = rows.deep_view();
    let mut out = String::from_str("PSF_TEXT\n");
    out.append("[");
    out.append(title);
    out.append("]\n");
    out.append("points = ");
    out.append(decimal_string(rows.len()).as_str());
    out.append("\n");
    out.append("[Signals]\n");
    let ghost head = out@;
    let mut i: usize = 0;
    while i < signals.len()
        invariant
            i <= signals.len(),
            names == signals.deep_view(),
            out@ == head + item_lines(names.take(i as int)),
        decreases signals.len() - i,
    {
        out.append(signals[i].as_str());
        out.append("\n");
        proof {
            assert(names.take(i + 1).drop_last() =~= names.take(i as int));
        }
        i += 1;
    }
    proof {
        assert(names.take(signals.len() as int) =~= names);
    }
    out.append("[Data]\n");
    let ghost head2 = out@;
    let mut k: usize = 0;
    while k < rows.len()
        invariant
            k <= rows.len(),
            all == rows.deep_view(),
            out@ == head2 + row_lines(all.take(k as int)),
        decreases rows.len() - k,
    {
        append_row(&mut out, &rows[k]);
        proof {
            assert(all.take(k + 1).drop_last() =~= all.take(k as int));
        }
        k += 1;
    }
    proof {
        assert(all.take(rows.len() as int) =~= all);
    }
    out
}

} // verus!
