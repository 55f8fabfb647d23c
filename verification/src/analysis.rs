//! Which analysis to run: the analyses themselves, and the rules by which one is
//! chosen from what a caller asks for and what the netlist holds.
//!
//! The types are generic in the scalar `T` of the numbers of an analysis, which are
//! carried and never computed with.

use crate::circuit::AcSweepType;
use crate::text::same_text;
use vstd::prelude::*;

verus! {

/// An analysis with its numbers.
#[derive(Debug)]
pub enum AnalysisCmd<T> {
    Op,
    Dc { source: String, start: T, stop: T, step: T },
    Tran { tstep: T, tstop: T, tstart: T, tmax: T },
    Ac { sweep_type: AcSweepType, points: usize, fstart: T, fstop: T },
}

/// The view of `AnalysisCmd`.
pub enum AnalysisCmdView<T> {
    Op,
    Dc { source: Seq<char>, start: T, stop: T, step: T },
    Tran { tstep: T, tstop: T, tstart: T, tmax: T },
    Ac { sweep_type: AcSweepType, points: usize, fstart: T, fstop: T },
}

impl<T> View for AnalysisCmd<T> {
    type V = AnalysisCmdView<T>;

    open spec fn view(&self) -> AnalysisCmdView<T> {
        match *self {
            AnalysisCmd::Op => AnalysisCmdView::Op,
            AnalysisCmd::Dc { source, start, stop, step } => AnalysisCmdView::Dc {
                source: source@,
                start,
                stop,
                step,
            },
            AnalysisCmd::Tran { tstep, tstop, tstart, tmax } => AnalysisCmdView::Tran {
                tstep,
                tstop,
                tstart,
                tmax,
            },
            AnalysisCmd::Ac { sweep_type, points, fstart, fstop } => AnalysisCmdView::Ac {
                sweep_type,
                points,
                fstart,
                fstop,
            },
        }
    }
}

impl<T: Copy> Clone for AnalysisCmd<T> {
    fn clone(&self) -> (r: Self)
        ensures
            r@ == self@,
    {
        match self {
            AnalysisCmd::Op => AnalysisCmd::Op,
            AnalysisCmd::Dc { source, start, stop, step } => AnalysisCmd::Dc {
                source: source.clone(),
                start: *start,
                stop: *stop,
                step: *step,
            },
            AnalysisCmd::Tran { tstep, tstop, tstart, tmax } => AnalysisCmd::Tran {
                tstep: *tstep,
                tstop: *tstop,
                tstart: *tstart,
                tmax: *tmax,
            },
            AnalysisCmd::Ac { sweep_type, points, fstart, fstop } => AnalysisCmd::Ac {
                sweep_type: *sweep_type,
                points: *points,
                fstart: *fstart,
                fstop: *fstop,
            },
        }
    }
}

/// What an engine is asked to run.
#[derive(Debug)]
pub struct AnalysisPlan<T> {
    pub cmd: AnalysisCmd<T>,
}

impl<T: Copy> Clone for AnalysisPlan<T> {
    fn clone(&self) -> (r: Self)
        ensures
            r.cmd@ == self.cmd@,
    {
        AnalysisPlan { cmd: self.cmd.clone() }
    }
}

/// The sweep of a source.
#[derive(Debug)]
pub struct DcSweep<T> {
    pub source: String,
    pub start: T,
    pub stop: T,
    pub step: T,
}

/// The view of `DcSweep`.
pub struct DcSweepView<T> {
    pub source: Seq<char>,
    pub start: T,
    pub stop: T,
    pub step: T,
}

impl<T> View for DcSweep<T> {
    type V = DcSweepView<T>;

    open spec fn view(&self) -> DcSweepView<T> {
        DcSweepView { source: self.source@, start: self.start, stop: self.stop, step: self.step }
    }
}

impl<T> DeepView for DcSweep<T> {
    type V = DcSweepView<T>;

    open spec fn deep_view(&self) -> DcSweepView<T> {
        self@
    }
}

impl<T: Copy> Clone for DcSweep<T> {
    fn clone(&self) -> (r: Self)
        ensures
            r@ == self@,
    {
        DcSweep { source: self.source.clone(), start: self.start, stop: self.stop, step: self.step }
    }
}

/// The sweep of the frequency.
#[derive(Debug, Clone, Copy)]
pub struct AcSweep<T> {
    pub sweep_type: AcSweepType,
    pub points: usize,
    pub fstart: T,
    pub fstop: T,
}

/// The sweep that the four options of a caller make, where all four are given.
pub open spec fn built_dc_sweep<T>(
    source: Option<Seq<char>>,
    start: Option<T>,
    stop: Option<T>,
    step: Option<T>,
) -> Option<DcSweepView<T>> {
    match (source, start, stop, step) {
        (Some(source), Some(start), Some(stop), Some(step)) => Some(
            DcSweepView { source, start, stop, step },
        ),
        _ => None,
    }
}

/// The sweep that the options of a caller describe, where they describe one in full.
pub fn build_dc_sweep<T>(
    source: Option<String>,
    start: Option<T>,
    stop: Option<T>,
    step: Option<T>,
) -> (out: Option<DcSweep<T>>)
    ensures
        out.deep_view() == built_dc_sweep(source.deep_view(), start, stop, step),
{
    match (source, start, stop, step) {
        (Some(source), Some(start), Some(stop), Some(step)) => Some(
            DcSweep { source: source, start: start, stop: stop, step: step },
        ),
        _ => None,
    }
}

/// The sweep of an analysis, where the analysis is the sweep of a source.
pub open spec fn dc_sweep_of<T>(cmd: Option<AnalysisCmdView<T>>) -> Option<DcSweepView<T>> {
    match cmd {
        Some(AnalysisCmdView::Dc { source, start, stop, step }) => Some(
            DcSweepView { source, start, stop, step },
        ),
        _ => None,
    }
}

/// The view of an analysis that may be missing.
pub open spec fn cmd_view<T>(cmd: Option<AnalysisCmd<T>>) -> Option<AnalysisCmdView<T>> {
    match cmd {
        Some(c) => Some(c@),
        None => None,
    }
}

/// The sweep of a source that an analysis is, if it is one.
pub fn extract_dc_sweep<T>(cmd: Option<AnalysisCmd<T>>) -> (out: Option<DcSweep<T>>)
    ensures
        out.deep_view() == dc_sweep_of(cmd_view(cmd)),
{
    match cmd {
        Some(AnalysisCmd::Dc { source, start, stop, step }) => Some(
            DcSweep { source: source, start: start, stop: stop, step: step },
        ),
        _ => None,
    }
}

/// The spacing that a word of a caller names: `oct`, `lin`, and `dec` for any other
/// word and for none.
pub open spec fn spacing_of(word: Option<Seq<char>>) -> AcSweepType {
    match word {
        Some(w) => if w == "oct"@ {
            AcSweepType::Oct
        } else if w == "lin"@ {
            AcSweepType::Lin
        } else {
            AcSweepType::Dec
        },
        None => AcSweepType::Dec,
    }
}

/// The sweep of the frequency that the options of a caller make, where both ends are
/// given. Without a number of points there are ten.
pub open spec fn built_ac_sweep<T>(
    ac_type: Option<Seq<char>>,
    points: Option<usize>,
    fstart: Option<T>,
    fstop: Option<T>,
) -> Option<AcSweep<T>> {
    match (fstart, fstop) {
        (Some(fstart), Some(fstop)) => Some(
            AcSweep {
                sweep_type: spacing_of(ac_type),
                points: match points {
                    Some(n) => n,
                    None => 10,
                },
                fstart,
                fstop,
            },
        ),
        _ => None,
    }
}

/// The sweep of the frequency that the options of a caller describe, where they give
/// both of its ends.
pub fn build_ac_sweep<T>(
    ac_type: Option<String>,
    points: Option<usize>,
    fstart: Option<T>,
    fstop: Option<T>,
) -> (out: Option<AcSweep<T>>)
    ensures
        out == built_ac_sweep(ac_type.deep_view(), points, fstart, fstop),
{
    match (fstart, fstop) {
        (Some(fstart), Some(fstop)) => {
            let sweep_type = match &ac_type {
                Some(w) => if same_text(w.as_str(), "oct") {
                    AcSweepType::Oct
                } else if same_text(w.as_str(), "lin") {
                    AcSweepType::Lin
                } else {
                    AcSweepType::Dec
                },
                None => AcSweepType::Dec,
            };
            let points = match points {
                Some(n) => n,
                None => 10,
            };
            Some(AcSweep { sweep_type: sweep_type, points: points, fstart: fstart, fstop: fstop })
        },
        _ => None,
    }
}

/// The sweep of an analysis, where the analysis is one over frequencies.
pub open spec fn ac_sweep_of<T>(cmd: Option<AnalysisCmdView<T>>) -> Option<AcSweep<T>> {
    match cmd {
        Some(AnalysisCmdView::Ac { sweep_type, points, fstart, fstop }) => Some(
            AcSweep { sweep_type, points, fstart, fstop },
        ),
        _ => None,
    }
}

/// The sweep of the frequency that an analysis is, if it is one.
pub fn extract_ac_sweep<T>(cmd: Option<AnalysisCmd<T>>) -> (out: Option<AcSweep<T>>)
    ensures
        out == ac_sweep_of(cmd_view(cmd)),
{
    match cmd {
        Some(AnalysisCmd::Ac { sweep_type, points, fstart, fstop }) => Some(
            AcSweep { sweep_type: sweep_type, points: points, fstart: fstart, fstop: fstop },
        ),
        _ => None,
    }
}

/// Why no analysis could be chosen.
#[derive(Debug, Clone, Copy, PartialEq, Eq)]
pub enum SelectError {
    /// A sweep of a source was asked for, and neither the caller nor the netlist says
    /// which.
    DcNeedsSweep,
    /// An analysis over frequencies was asked for, and neither the caller nor the
    /// netlist says which.
    AcNeedsSweep,
}

/// The analysis chosen, with its sweep where it is one.
#[derive(Debug)]
pub struct Selection<T> {
    pub cmd: AnalysisCmd<T>,
    pub sweep: Option<DcSweep<T>>,
    pub ac: Option<AcSweep<T>>,
}

/// The view of `Selection`.
pub struct SelectionView<T> {
    pub cmd: AnalysisCmdView<T>,
    pub sweep: Option<DcSweepView<T>>,
    pub ac: Option<AcSweep<T>>,
}

impl<T> View for Selection<T> {
    type V = SelectionView<T>;

    open spec fn view(&self) -> SelectionView<T> {
        SelectionView { cmd: self.cmd@, sweep: self.sweep.deep_view(), ac: self.ac }
    }
}

/// The first of two values that is there.
pub open spec fn or_else<A>(a: Option<A>, b: Option<A>) -> Option<A> {
    if a is Some {
        a
    } else {
        b
    }
}

/// The selection of the sweep of a source.
pub open spec fn dc_selection<T>(s: DcSweepView<T>) -> SelectionView<T> {
    SelectionView {
        cmd: AnalysisCmdView::Dc { source: s.source, start: s.start, stop: s.stop, step: s.step },
        sweep: Some(s),
        ac: None,
    }
}

/// The selection of an analysis over frequencies.
pub open spec fn ac_selection<T>(a: AcSweep<T>) -> SelectionView<T> {
    SelectionView {
        cmd: AnalysisCmdView::Ac {
            sweep_type: a.sweep_type,
            points: a.points,
            fstart: a.fstart,
            fstop: a.fstop,
        },
        sweep: None,
        ac: Some(a),
    }
}

/// The selection of an analysis that is no sweep.
pub open spec fn plain_selection<T>(cmd: AnalysisCmdView<T>) -> SelectionView<T> {
    SelectionView { cmd, sweep: None, ac: None }
}

/// The analysis to run.
///
/// - Asked for `op`: the operating point.
/// - Asked for `dc`: the sweep that the caller describes in full or else the one of
///   the netlist; without either, an error.
/// - Asked for `tran`: the transient analysis of the netlist, or else the one given
///   as the default.
/// - Asked for `ac`: the sweep that the caller describes or else the one of the
///   netlist; without either, an error.
/// - Asked for anything else or for nothing: the analysis of the netlist, or the
///   operating point where the netlist has none.
///
/// `from_netlist` is the first analysis of the netlist.
pub open spec fn selected<T>(
    analysis: Option<Seq<char>>,
    from_netlist: Option<AnalysisCmdView<T>>,
    dc: Option<DcSweepView<T>>,
    ac: Option<AcSweep<T>>,
    default_tran: AnalysisCmdView<T>,
) -> Result<SelectionView<T>, SelectError> {
    if analysis == Some("op"@) {
        Ok(plain_selection(AnalysisCmdView::Op))
    } else if analysis == Some("dc"@) {
        match or_else(dc, dc_sweep_of(from_netlist)) {
            Some(s) => Ok(dc_selection(s)),
            None => Err(SelectError::DcNeedsSweep),
        }
    } else if analysis == Some("tran"@) {
        match from_netlist {
            Some(AnalysisCmdView::Tran { tstep, tstop, tstart, tmax }) => Ok(
                plain_selection(AnalysisCmdView::Tran { tstep, tstop, tstart, tmax }),
            ),
            _ => Ok(plain_selection(default_tran)),
        }
    } else if analysis == Some("ac"@) {
        match or_else(ac, ac_sweep_of(from_netlist)) {
            Some(a) => Ok(ac_selection(a)),
            None => Err(SelectError::AcNeedsSweep),
        }
    } else {
        match from_netlist {
            Some(AnalysisCmdView::Dc { source, start, stop, step }) => Ok(
                dc_selection(DcSweepView { source, start, stop, step }),
            ),
            Some(AnalysisCmdView::Ac { sweep_type, points, fstart, fstop }) => Ok(
                ac_selection(AcSweep { sweep_type, points, fstart, fstop }),
            ),
            Some(cmd) => Ok(plain_selection(cmd)),
            None => Ok(plain_selection(AnalysisCmdView::Op)),
        }
    }
}

/// The view of a result of a selection.
pub open spec fn selection_view<T>(r: Result<Selection<T>, SelectError>) -> Result<
    SelectionView<T>,
    SelectError,
> {
    match r {
        Ok(s) => Ok(s@),
        Err(e) => Err(e),
    }
}

fn asks_for(analysis: &Option<String>, word: &str) -> (r: bool)
    ensures
        r == (analysis.deep_view() == Some(word@)),
{
    match analysis {
        Some(a) => same_text(a.as_str(), word),
        None => false,
    }
}

fn select_dc<T: Copy>(sweep: DcSweep<T>) -> (out: Selection<T>)
    ensures
        out@ == dc_selection(sweep@),
{
    Selection {
        cmd: AnalysisCmd::Dc {
            source: sweep.source.clone(),
            start: sweep.start,
            stop: sweep.stop,
            step: sweep.step,
        },
        sweep: Some(sweep),
        ac: None,
    }
}

fn select_ac<T: Copy>(ac: AcSweep<T>) -> (out: Selection<T>)
    ensures
        out@ == ac_selection(ac),
{
    Selection {
        cmd: AnalysisCmd::Ac {
            sweep_type: ac.sweep_type,
            points: ac.points,
            fstart: ac.fstart,
            fstop: ac.fstop,
        },
        sweep: None,
        ac: Some(ac),
    }
}

/// Chooses the analysis to run from what the caller asks for and the first analysis
/// of the netlist. `default_tran` is the transient analysis that is run where one is
/// asked for and the netlist has none.
pub fn select_analysis<T: Copy>(
    analysis: &Option<String>,
    from_netlist: Option<AnalysisCmd<T>>,
    dc_source: Option<String>,
    dc_start: Option<T>,
    dc_stop: Option<T>,
    dc_step: Option<T>,
    ac_type: Option<String>,
    ac_points: Option<usize>,
    ac_fstart: Option<T>,
    ac_fstop: Option<T>,
    default_tran: AnalysisCmd<T>,
) -> (out: Result<Selection<T>, SelectError>)
    ensures
        selection_view(out) == selected(
            analysis.deep_view(),
            cmd_view(from_netlist),
            built_dc_sweep(dc_source.deep_view(), dc_start, dc_stop, dc_step),
            built_ac_sweep(ac_type.deep_view(), ac_points, ac_fstart, ac_fstop),
            default_tran@,
        ),
{
    if asks_for(analysis, "op") {
        Ok(Selection { cmd: AnalysisCmd::Op, sweep: None, ac: None })
    } else if asks_for(analysis, "dc") {
        let sweep = match build_dc_sweep(dc_source, dc_start, dc_stop, dc_step) {
            Some(s) => Some(s),
            None => extract_dc_sweep(from_netlist),
        };
        match sweep {
            Some(s) => Ok(select_dc(s)),
            None => Err(SelectError::DcNeedsSweep),
        }
    } else if asks_for(analysis, "tran") {
        match from_netlist {
            Some(AnalysisCmd::Tran { tstep, tstop, tstart, tmax }) => Ok(
                Selection {
                    cmd: AnalysisCmd::Tran { tstep: tstep, tstop: tstop, tstart: tstart, tmax: tmax },
                    sweep: None,
                    ac: None,
                },
            ),
            _ => Ok(Selection { cmd: default_tran, sweep: None, ac: None }),
        }
    } else if asks_for(analysis, "ac") {
        let ac = match build_ac_sweep(ac_type, ac_points, ac_fstart, ac_fstop) {
            Some(a) => Some(a),
            None => extract_ac_sweep(from_netlist),
        };
        match ac {
            Some(a) => Ok(select_ac(a)),
            None => Err(SelectError::AcNeedsSweep),
        }
    } else {
        match from_netlist {
            Some(AnalysisCmd::Dc { source, start, stop, step }) => Ok(
                select_dc(DcSweep { source: source, start: start, stop: stop, step: step }),
            ),
            Some(AnalysisCmd::Ac { sweep_type, points, fstart, fstop }) => Ok(
                select_ac(
                    AcSweep { sweep_type: sweep_type, points: points, fstart: fstart, fstop: fstop },
                ),
            ),
            Some(cmd) => Ok(Selection { cmd: cmd, sweep: None, ac: None }),
            None => Ok(Selection { cmd: AnalysisCmd::Op, sweep: None, ac: None }),
        }
    }
}

/// What is wrong with a request for an analysis.
#[derive(Debug, Clone, Copy, PartialEq, Eq)]
pub enum RequestError {
    MissingSource,
    MissingStart,
    MissingStop,
    MissingStep,
    MissingTstep,
    MissingTstop,
    /// The request says nothing of the analysis, and the netlist holds none of its
    /// kind.
    NotProvided,
}

/// The test for an analysis to be no sweep of a source.
pub open spec fn not_dc<T>() -> spec_fn(AnalysisCmdView<T>) -> bool {
    |c: AnalysisCmdView<T>| !(c is Dc)
}

/// The test for an analysis to be no transient analysis.
pub open spec fn not_tran<T>() -> spec_fn(AnalysisCmdView<T>) -> bool {
    |c: AnalysisCmdView<T>| !(c is Tran)
}

/// The views of the analyses of a list.
pub open spec fn cmd_views<T>(cmds: Seq<AnalysisCmd<T>>) -> Seq<AnalysisCmdView<T>> {
    Seq::new(cmds.len(), |i: int| cmds[i]@)
}

/// The first analysis of a list that `rejects` does not hold of.
pub open spec fn first_not<T>(
    cmds: Seq<AnalysisCmdView<T>>,
    rejects: spec_fn(AnalysisCmdView<T>) -> bool,
) -> Option<AnalysisCmdView<T>> {
    let at = crate::span::span(cmds, rejects) as int;
    if at < cmds.len() {
        Some(cmds[at])
    } else {
        None
    }
}

/// The sweep of a source that a request asks for.
///
/// A request that names any of source, start, stop and step must name all four. A
/// request that names none asks for the first sweep of the netlist.
pub open spec fn requested_dc<T>(
    source: Option<Seq<char>>,
    start: Option<T>,
    stop: Option<T>,
    step: Option<T>,
    netlist: Seq<AnalysisCmdView<T>>,
) -> Result<AnalysisCmdView<T>, RequestError> {
    if source is Some || start is Some || stop is Some || step is Some {
        if source is None {
            Err(RequestError::MissingSource)
        } else if start is None {
            Err(RequestError::MissingStart)
        } else if stop is None {
            Err(RequestError::MissingStop)
        } else if step is None {
            Err(RequestError::MissingStep)
        } else {
            Ok(
                AnalysisCmdView::Dc {
                    source: source->0,
                    start: start->0,
                    stop: stop->0,
                    step: step->0,
                },
            )
        }
    } else {
        match first_not(netlist, not_dc()) {
            Some(cmd) => Ok(cmd),
            None => Err(RequestError::NotProvided),
        }
    }
}

/// The view of a result that holds an analysis.
pub open spec fn request_view<T>(r: Result<AnalysisCmd<T>, RequestError>) -> Result<
    AnalysisCmdView<T>,
    RequestError,
> {
    match r {
        Ok(c) => Ok(c@),
        Err(e) => Err(e),
    }
}

fn first_of_kind<T: Copy>(netlist: &Vec<AnalysisCmd<T>>, dc: bool) -> (out: Option<
    AnalysisCmd<T>,
>)
    ensures
        cmd_view(out) == first_not(
            cmd_views(netlist@),
            if dc {
                not_dc()
            } else {
                not_tran()
            },
        ),
{
    let ghost all = cmd_views(netlist@);
    let ghost rejects = if dc {
        not_dc::<T>()
    } else {
        not_tran::<T>()
    };
    let mut i: usize = 0;
    while i < netlist.len()
        invariant
            i <= netlist.len(),
            all == cmd_views(netlist@),
            rejects == (if dc {
                not_dc::<T>()
            } else {
                not_tran::<T>()
            }),
            forall|k: int| 0 <= k < i ==> rejects(#[trigger] all[k]),
        decreases netlist.len() - i,
    {
        let found = match &netlist[i] {
            AnalysisCmd::Dc { .. } => dc,
            AnalysisCmd::Tran { .. } => !dc,
            _ => false,
        };
        if found {
            proof {
                crate::span::lemma_span(all, rejects, i as int);
            }
            return Some(netlist[i].clone());
        }
        i += 1;
    }
    proof {
        crate::span::lemma_span(all, rejects, i as int);
    }
    None
}

/// Chooses the sweep of a source for a request.
pub fn select_dc_cmd<T: Copy>(
    source: Option<String>,
    start: Option<T>,
    stop: Option<T>,
    step: Option<T>,
    netlist: &Vec<AnalysisCmd<T>>,
) -> (out: Result<AnalysisCmd<T>, RequestError>)
    ensures
        request_view(out) == requested_dc(
            source.deep_view(),
            start,
            stop,
            step,
            cmd_views(netlist@),
        ),
{
    if source.is_some() || start.is_some() || stop.is_some() || step.is_some() {
        match (source, start, stop, step) {
            (None, _, _, _) => Err(RequestError::MissingSource),
            (Some(_), None, _, _) => Err(RequestError::MissingStart),
            (Some(_), Some(_), None, _) => Err(RequestError::MissingStop),
            (Some(_), Some(_), Some(_), None) => Err(RequestError::MissingStep),
            (Some(source), Some(start), Some(stop), Some(step)) => Ok(
                AnalysisCmd::Dc { source: source, start: start, stop: stop, step: step },
            ),
        }
    } else {
        match first_of_kind(netlist, true) {
            Some(cmd) => Ok(cmd),
            None => Err(RequestError::NotProvided),
        }
    }
}

/// The transient analysis that a request asks for.
///
/// A request that names the step or the stop must name both; its start is `zero`
/// and its largest step the stop where it names none. A request that names neither
/// asks for the first transient analysis of the netlist.
pub open spec fn requested_tran<T>(
    tstep: Option<T>,
    tstop: Option<T>,
    tstart: Option<T>,
    tmax: Option<T>,
    zero: T,
    netlist: Seq<AnalysisCmdView<T>>,
) -> Result<AnalysisCmdView<T>, RequestError> {
    if tstep is Some || tstop is Some {
        if tstep is None {
            Err(RequestError::MissingTstep)
        } else if tstop is None {
            Err(RequestError::MissingTstop)
        } else {
            Ok(
                AnalysisCmdView::Tran {
                    tstep: tstep->0,
                    tstop: tstop->0,
                    tstart: match tstart {
                        Some(t) => t,
                        None => zero,
                    },
                    tmax: match tmax {
                        Some(t) => t,
                        None => tstop->0,
                    },
                },
            )
        }
    } else {
        match first_not(netlist, not_tran()) {
            Some(cmd) => Ok(cmd),
            None => Err(RequestError::NotProvided),
        }
    }
}

/// Chooses the transient analysis for a request.
pub fn select_tran_cmd<T: Copy>(
    tstep: Option<T>,
    tstop: Option<T>,
    tstart: Option<T>,
    tmax: Option<T>,
    zero: T,
    netlist: &Vec<AnalysisCmd<T>>,
) -> (out: Result<AnalysisCmd<T>, RequestError>)
    ensures
        request_view(out) == requested_tran(
            tstep,
            tstop,
            tstart,
            tmax,
            zero,
            cmd_views(netlist@),
        ),
{
    if tstep.is_some() || tstop.is_some() {
        match (tstep, tstop) {
            (None, _) => Err(RequestError::MissingTstep),
            (Some(_), None) => Err(RequestError::MissingTstop),
            (Some(tstep), Some(tstop)) => Ok(
                AnalysisCmd::Tran {
                    tstep: tstep,
                    tstop: tstop,
                    tstart: match tstart {
                        Some(t) => t,
                        None => zero,
                    },
                    tmax: match tmax {
                        Some(t) => t,
                        None => tstop,
                    },
                },
            ),
        }
    } else {
        match first_of_kind(netlist, false) {
            Some(cmd) => Ok(cmd),
            None => Err(RequestError::NotProvided),
        }
    }
}

} // verus!
