//! What can be said of the contribution of a device to a system without computing a
//! number: whether the device has the terminals and the fields that it needs, at which
//! places of the matrix its values go, and the polarity of a MOSFET.

use crate::bsim::MosType;
use crate::circuit::{circuit_kind, instance_of, DeviceKind, Instance, InstanceView, ModelView, NodeId};
use crate::mna::{added, in_row, sorted_by_row, StampContext};
use crate::netlist::ast::DeviceView;
use crate::netlist::elaborate::ParamTable;
use crate::netlist::parse::device_errors;
use crate::text::{chars_of, lowercase, lowercase_string, same_text};
use vstd::prelude::*;

verus! {

/// Why a device cannot contribute to the system.
#[derive(Debug, Clone, Copy, PartialEq, Eq)]
pub enum StampError {
    MissingValue,
    InvalidNodes,
}

/// A device that contributes to a system.
#[derive(Debug, Clone)]
pub struct InstanceStamp {
    pub instance: Instance,
}

/// Whether a device of the given kind may have `n` terminals.
///
/// Two-terminal devices have two, controlled sources with a controlling voltage four,
/// a MOSFET at least four. A capacitor contributes nothing to a DC system and is not
/// looked at there, nor is the instance of a subcircuit anywhere.
pub open spec fn terminals_ok(kind: DeviceKind, n: nat, transient: bool) -> bool {
    match kind {
        DeviceKind::R | DeviceKind::I | DeviceKind::V | DeviceKind::D | DeviceKind::L
        | DeviceKind::F | DeviceKind::H => n == 2,
        DeviceKind::M => n >= 4,
        DeviceKind::E | DeviceKind::G => n == 4,
        DeviceKind::C => !transient || n == 2,
        DeviceKind::X => true,
    }
}

/// Whether the contribution of a device of the given kind depends on its value. That
/// of an inductor and of a capacitor does so in a transient system only.
pub open spec fn needs_value(kind: DeviceKind, transient: bool) -> bool {
    match kind {
        DeviceKind::R | DeviceKind::I | DeviceKind::V | DeviceKind::E | DeviceKind::G
        | DeviceKind::F | DeviceKind::H => true,
        DeviceKind::C | DeviceKind::L => transient,
        DeviceKind::D | DeviceKind::M | DeviceKind::X => false,
    }
}

/// The error in the structure of a device, if there is one: first a wrong number of
/// terminals, then a missing value, then the missing controlling source of a
/// current-controlled source.
pub open spec fn structure(inst: InstanceView, transient: bool) -> Result<(), StampError> {
    if !terminals_ok(inst.kind, inst.nodes.len(), transient) {
        Err(StampError::InvalidNodes)
    } else if needs_value(inst.kind, transient) && inst.value is None {
        Err(StampError::MissingValue)
    } else if (inst.kind is F || inst.kind is H) && inst.control is None {
        Err(StampError::MissingValue)
    } else {
        Ok(())
    }
}

impl InstanceStamp {
    /// Checks the structure of the device for a DC system or, with `transient`, for a
    /// transient system.
    pub fn check(&self, transient: bool) -> (r: Result<(), StampError>)
        ensures
            r == structure(self.instance@, transient),
    {
        let n = self.instance.nodes.len();
        let terminals = match self.instance.kind {
            DeviceKind::R | DeviceKind::I | DeviceKind::V | DeviceKind::D | DeviceKind::L
            | DeviceKind::F | DeviceKind::H => n == 2,
            DeviceKind::M => n >= 4,
            DeviceKind::E | DeviceKind::G => n == 4,
            DeviceKind::C => !transient || n == 2,
            DeviceKind::X => true,
        };
        if !terminals {
            return Err(StampError::InvalidNodes);
        }
        let valued = match self.instance.kind {
            DeviceKind::R | DeviceKind::I | DeviceKind::V | DeviceKind::E | DeviceKind::G
            | DeviceKind::F | DeviceKind::H => true,
            DeviceKind::C | DeviceKind::L => transient,
            DeviceKind::D | DeviceKind::M | DeviceKind::X => false,
        };
        if valued && self.instance.value.is_none() {
            return Err(StampError::MissingValue);
        }
        let controlled = matches!(self.instance.kind, DeviceKind::F | DeviceKind::H);
        if controlled && self.instance.control.is_none() {
            return Err(StampError::MissingValue);
        }
        Ok(())
    }
}

/// A device that was read without an error has the structure that its contribution
/// needs, in a DC system and in a transient one.
pub proof fn lemma_valid_device_has_structure(
    d: DeviceView,
    kind: DeviceKind,
    ids: Seq<NodeId>,
    models: Seq<ModelView>,
    transient: bool,
)
    requires
        circuit_kind(d.kind) == Some(kind),
        ids.len() == d.nodes.len(),
        device_errors(
            d.name,
            d.kind,
            d.nodes.len(),
            d.model is Some,
            d.control is Some,
            d.value is Some,
            d.line,
        ).len() == 0,
    ensures
        structure(instance_of(d, kind, ids, models), transient) is Ok,
{
}

/// Whether `pmos` stands somewhere in `t`.
pub open spec fn has_pmos(t: Seq<char>) -> bool {
    exists|i: int|
        0 <= i && i + 4 <= t.len() && #[trigger] t[i] == 'p' && t[i + 1] == 'm' && t[i + 2] == 'o'
            && t[i + 3] == 's'
}

/// The polarity that the parameters of a MOSFET give it: that of a p-channel device
/// where the parameter `type` holds `pmos` or is `p`, in either case of letters, or,
/// without a parameter `type`, where there is a parameter `pmos`.
pub open spec fn polarity(params: Map<Seq<char>, Seq<char>>) -> MosType {
    let p_channel = if params.contains_key("type"@) {
        has_pmos(lowercase(params["type"@])) || lowercase(params["type"@]) == "p"@
    } else {
        params.contains_key("pmos"@)
    };
    if p_channel {
        MosType::Pmos
    } else {
        MosType::Nmos
    }
}

fn contains_pmos(t: &[char]) -> (r: bool)
    ensures
        r == has_pmos(t@),
{
    let n = t.len();
    if n < 4 {
        return false;
    }
    let mut i: usize = 0;
    while i <= n - 4
        invariant
            4 <= n == t.len(),
            i <= n - 3,
            forall|k: int|
                0 <= k < i ==> !(#[trigger] t@[k] == 'p' && t@[k + 1] == 'm' && t@[k + 2] == 'o'
                    && t@[k + 3] == 's'),
        decreases n - i,
    {
        if t[i] == 'p' && t[i + 1] == 'm' && t[i + 2] == 'o' && t[i + 3] == 's' {
            return true;
        }
        i += 1;
    }
    false
}

/// The polarity of a MOSFET with the given parameters.
pub fn mos_polarity(params: &ParamTable) -> (t: MosType)
    ensures
        t == polarity(params@),
{
    let p_channel = match params.get("type") {
        Some(t) => {
            let low = lowercase_string(t.as_str());
            let chars = chars_of(low.as_str());
            contains_pmos(chars.as_slice()) || same_text(low.as_str(), "p")
        },
        None => params.get("pmos").is_some(),
    };
    if p_channel {
        MosType::Pmos
    } else {
        MosType::Nmos
    }
}

/// The columns after a conductance `g` between the nodes `a` and `b` was added: `g`
/// on the diagonal of both, `minus_g` at the two places off the diagonal.
pub open spec fn conductance<T>(
    cols: Seq<Seq<(usize, T)>>,
    a: usize,
    b: usize,
    g: T,
    minus_g: T,
) -> Seq<Seq<(usize, T)>> {
    added(added(added(added(cols, a, a, g), b, b, g), a, b, minus_g), b, a, minus_g)
}

/// The columns after the branch of a voltage-defined device between the nodes `a` and
/// `b` was added, whose current is the unknown `k`: the current leaves `a` and enters
/// `b`, and the row `k` holds the voltage between them.
pub open spec fn branch<T>(
    cols: Seq<Seq<(usize, T)>>,
    a: usize,
    b: usize,
    k: usize,
    one: T,
    minus_one: T,
) -> Seq<Seq<(usize, T)>> {
    added(added(added(added(cols, a, k, one), b, k, minus_one), k, a, one), k, b, minus_one)
}

/// The columns after a transconductance `g` was added: a current from `op` to `on`
/// that the voltage between `cp` and `cn` controls.
pub open spec fn transfer<T>(
    cols: Seq<Seq<(usize, T)>>,
    op: usize,
    on: usize,
    cp: usize,
    cn: usize,
    g: T,
    minus_g: T,
) -> Seq<Seq<(usize, T)>> {
    added(added(added(added(cols, op, cp, g), op, cn, minus_g), on, cp, minus_g), on, cn, g)
}

/// The test for an entry to be the value `v` in row `r`.
pub open spec fn is_entry<T>(r: usize, v: T) -> spec_fn((usize, T)) -> bool {
    |e: (usize, T)| e.0 == r && e.1 == v
}

/// How many entries of row `r` and column `c` hold the value `v`.
pub open spec fn count<T>(cols: Seq<Seq<(usize, T)>>, r: usize, c: usize, v: T) -> nat {
    if c < cols.len() {
        cols[c as int].filter(is_entry(r, v)).len()
    } else {
        0
    }
}

/// The matrix is symmetric entry by entry: what was added at a place was added at the
/// mirrored place as well, as often.
pub open spec fn symmetric<T>(cols: Seq<Seq<(usize, T)>>) -> bool {
    forall|r: usize, c: usize, v: T|
        r < cols.len() && c < cols.len() ==> #[trigger] count(cols, r, c, v) == count(
            cols,
            c,
            r,
            v,
        )
}

/// One more entry is counted once, at its place and for its value.
pub proof fn lemma_count_added<T>(
    cols: Seq<Seq<(usize, T)>>,
    r0: usize,
    c0: usize,
    v0: T,
    r: usize,
    c: usize,
    v: T,
)
    ensures
        added(cols, r0, c0, v0).len() == cols.len(),
        count(added(cols, r0, c0, v0), r, c, v) == count(cols, r, c, v) + (if c0 < cols.len()
            && r == r0 && c == c0 && v == v0 {
            1nat
        } else {
            0nat
        }),
{
    if c0 < cols.len() && c == c0 {
        cols[c0 as int].lemma_filter_push((r0, v0), is_entry(r, v));
    }
}

/// A conductance keeps a symmetric matrix symmetric.
pub proof fn lemma_conductance_symmetric<T>(
    cols: Seq<Seq<(usize, T)>>,
    a: usize,
    b: usize,
    g: T,
    minus_g: T,
)
    requires
        symmetric(cols),
    ensures
        symmetric(conductance(cols, a, b, g, minus_g)),
{
    let c1 = added(cols, a, a, g);
    let c2 = added(c1, b, b, g);
    let c3 = added(c2, a, b, minus_g);
    let c4 = added(c3, b, a, minus_g);
    assert forall|r: usize, c: usize, v: T| r < c4.len() && c < c4.len() implies #[trigger] count(
        c4,
        r,
        c,
        v,
    ) == count(c4, c, r, v) by {
        lemma_count_added(cols, a, a, g, r, c, v);
        lemma_count_added(c1, b, b, g, r, c, v);
        lemma_count_added(c2, a, b, minus_g, r, c, v);
        lemma_count_added(c3, b, a, minus_g, r, c, v);
        lemma_count_added(cols, a, a, g, c, r, v);
        lemma_count_added(c1, b, b, g, c, r, v);
        lemma_count_added(c2, a, b, minus_g, c, r, v);
        lemma_count_added(c3, b, a, minus_g, c, r, v);
    }
}

/// The branch of a voltage-defined device keeps a symmetric matrix symmetric.
pub proof fn lemma_branch_symmetric<T>(
    cols: Seq<Seq<(usize, T)>>,
    a: usize,
    b: usize,
    k: usize,
    one: T,
    minus_one: T,
)
    requires
        symmetric(cols),
    ensures
        symmetric(branch(cols, a, b, k, one, minus_one)),
{
    let c1 = added(cols, a, k, one);
    let c2 = added(c1, b, k, minus_one);
    let c3 = added(c2, k, a, one);
    let c4 = added(c3, k, b, minus_one);
    assert forall|r: usize, c: usize, v: T| r < c4.len() && c < c4.len() implies #[trigger] count(
        c4,
        r,
        c,
        v,
    ) == count(c4, c, r, v) by {
        lemma_count_added(cols, a, k, one, r, c, v);
        lemma_count_added(c1, b, k, minus_one, r, c, v);
        lemma_count_added(c2, k, a, one, r, c, v);
        lemma_count_added(c3, k, b, minus_one, r, c, v);
        lemma_count_added(cols, a, k, one, c, r, v);
        lemma_count_added(c1, b, k, minus_one, c, r, v);
        lemma_count_added(c2, k, a, one, c, r, v);
        lemma_count_added(c3, k, b, minus_one, c, r, v);
    }
}

/// An entry on the diagonal keeps a symmetric matrix symmetric.
pub proof fn lemma_diagonal_symmetric<T>(cols: Seq<Seq<(usize, T)>>, i: usize, v0: T)
    requires
        symmetric(cols),
    ensures
        symmetric(added(cols, i, i, v0)),
{
    let c1 = added(cols, i, i, v0);
    assert forall|r: usize, c: usize, v: T| r < c1.len() && c < c1.len() implies #[trigger] count(
        c1,
        r,
        c,
        v,
    ) == count(c1, c, r, v) by {
        lemma_count_added(cols, i, i, v0, r, c, v);
        lemma_count_added(cols, i, i, v0, c, r, v);
    }
}

/// A matrix without entries is symmetric.
pub proof fn lemma_empty_symmetric<T>(cols: Seq<Seq<(usize, T)>>)
    requires
        forall|c: int| 0 <= c < cols.len() ==> (#[trigger] cols[c]).len() == 0,
    ensures
        symmetric(cols),
{
}

/// The test for an entry to hold the value `v`.
pub open spec fn has_value<T>(v: T) -> spec_fn((usize, T)) -> bool {
    |e: (usize, T)| e.1 == v
}

/// The entries of a row that hold a value are the entries that are that value in
/// that row.
proof fn lemma_filter_row_then_value<T>(s: Seq<(usize, T)>, r: usize, v: T)
    ensures
        s.filter(is_entry(r, v)) == s.filter(in_row::<T>(r)).filter(has_value(v)),
    decreases s.len(),
{
    reveal(Seq::filter);
    if s.len() > 0 {
        let head = s.drop_last();
        lemma_filter_row_then_value(head, r, v);
        if in_row::<T>(r)(s.last()) {
            head.filter(in_row::<T>(r)).lemma_filter_push(s.last(), has_value(v));
        }
    }
}

/// Ordering the columns by row keeps a symmetric matrix symmetric.
pub proof fn lemma_sorted_symmetric<T>(before: Seq<Seq<(usize, T)>>, after: Seq<Seq<(usize, T)>>)
    requires
        after.len() == before.len(),
        forall|c: int| 0 <= c < before.len() ==> sorted_by_row(#[trigger] after[c], before[c]),
        symmetric(before),
    ensures
        symmetric(after),
{
    assert forall|r: usize, c: usize, v: T| r < after.len() && c < after.len() implies #[trigger] count(
        after,
        r,
        c,
        v,
    ) == count(after, c, r, v) by {
        lemma_filter_row_then_value(after[c as int], r, v);
        lemma_filter_row_then_value(before[c as int], r, v);
        lemma_filter_row_then_value(after[r as int], c, v);
        lemma_filter_row_then_value(before[r as int], c, v);
        assert(count(before, r, c, v) == count(before, c, r, v));
    }
}

/// Every entry lies in one of the first `n` rows.
pub open spec fn rows_below<T>(cols: Seq<Seq<(usize, T)>>, n: nat) -> bool {
    forall|c: int, k: int|
        0 <= c < cols.len() && 0 <= k < cols[c].len() ==> (#[trigger] cols[c][k]).0 < n
}

/// One more unknown, about which nothing has been said yet, keeps a symmetric matrix
/// symmetric, where every entry lies in a row of the matrix.
pub proof fn lemma_grown_symmetric<T>(cols: Seq<Seq<(usize, T)>>)
    requires
        symmetric(cols),
        rows_below(cols, cols.len()),
        cols.len() < usize::MAX,
    ensures
        symmetric(cols.push(Seq::empty())),
        rows_below(cols.push(Seq::empty()), cols.len() + 1),
{
    let grown = cols.push(Seq::<(usize, T)>::empty());
    let n = cols.len() as usize;
    assert forall|r: usize, c: usize, v: T| r < grown.len() && c < grown.len() implies #[trigger] count(
        grown,
        r,
        c,
        v,
    ) == count(grown, c, r, v) by {
        if r < n && c < n {
            assert(count(cols, r, c, v) == count(cols, c, r, v));
        } else {
            // No entry lies in the new row, and the new column is empty.
            if c < n {
                let col = cols[c as int];
                col.lemma_all_neg_filter_empty(is_entry(r, v));
            }
            if r < n {
                let col = cols[r as int];
                col.lemma_all_neg_filter_empty(is_entry(c, v));
            }
        }
    }
    assert forall|c: int, k: int|
        0 <= c < grown.len() && 0 <= k < grown[c].len() implies (#[trigger] grown[c][k]).0
        < cols.len() + 1 by {
    }
}

/// A device whose contribution is the same seen from either of its terminals: a
/// resistor, by its conductance, or a voltage source, by its branch.
pub enum Reciprocal<T> {
    Resistor { a: usize, b: usize, g: T, minus_g: T },
    Source { a: usize, b: usize, one: T, minus_one: T },
}

/// The columns after one more such device. A voltage source brings its current as a
/// new unknown.
pub open spec fn stamped<T>(cols: Seq<Seq<(usize, T)>>, e: Reciprocal<T>) -> Seq<
    Seq<(usize, T)>,
> {
    match e {
        Reciprocal::Resistor { a, b, g, minus_g } => conductance(cols, a, b, g, minus_g),
        Reciprocal::Source { a, b, one, minus_one } => branch(
            cols.push(Seq::empty()),
            a,
            b,
            cols.len() as usize,
            one,
            minus_one,
        ),
    }
}

/// The matrix of a circuit of `n` nodes with the given devices, in order.
pub open spec fn network<T>(n: nat, devices: Seq<Reciprocal<T>>) -> Seq<Seq<(usize, T)>>
    decreases devices.len(),
{
    if devices.len() == 0 {
        Seq::new(n, |c: int| Seq::<(usize, T)>::empty())
    } else {
        stamped(network(n, devices.drop_last()), devices.last())
    }
}

/// Whether a device connects nodes of a circuit of `n` nodes.
pub open spec fn between_nodes<T>(e: Reciprocal<T>, n: nat) -> bool {
    match e {
        Reciprocal::Resistor { a, b, .. } => a < n && b < n,
        Reciprocal::Source { a, b, .. } => a < n && b < n,
    }
}

/// The matrix of a circuit of resistors and voltage sources is symmetric, also with
/// its reference node pinned on the diagonal.
pub proof fn lemma_network_symmetric<T>(
    n: nat,
    devices: Seq<Reciprocal<T>>,
    gnd: usize,
    one: T,
)
    requires
        forall|i: int| 0 <= i < devices.len() ==> between_nodes(#[trigger] devices[i], n),
        n + devices.len() < usize::MAX,
    ensures
        symmetric(network(n, devices)),
        symmetric(added(network(n, devices), gnd, gnd, one)),
        rows_below(network(n, devices), network(n, devices).len()),
        n <= network(n, devices).len() <= n + devices.len(),
    decreases devices.len(),
{
    let cols = network(n, devices);
    if devices.len() > 0 {
        let before = network(n, devices.drop_last());
        lemma_network_symmetric(n, devices.drop_last(), gnd, one);
        let m = before.len();
        match devices.last() {
            Reciprocal::Resistor { a, b, g, minus_g } => {
                lemma_conductance_symmetric(before, a, b, g, minus_g);
            },
            Reciprocal::Source { a, b, one, minus_one } => {
                lemma_grown_symmetric(before);
                let grown = before.push(Seq::<(usize, T)>::empty());
                let k = m as usize;
                lemma_branch_symmetric(grown, a, b, k, one, minus_one);
            },
        }
    }
    lemma_diagonal_symmetric(cols, gnd, one);
}

impl<'a, T: Copy> StampContext<'a, T> {
    /// Adds a conductance `g` between the nodes `a` and `b`. `minus_g` is its negative.
    pub fn stamp_conductance(&mut self, a: usize, b: usize, g: T, minus_g: T)
        requires
            old(self).builder.wf(),
        ensures
            final(self).builder.wf(),
            final(self).builder.n == old(self).builder.n,
            final(self).builder@ == conductance(old(self).builder@, a, b, g, minus_g),
            symmetric(old(self).builder@) ==> symmetric(final(self).builder@),
            old(self).builder.rows_in_range() && a < old(self).builder.n
                && b < old(self).builder.n ==> final(self).builder.rows_in_range(),
            final(self).rhs@ == old(self).rhs@,
            final(self).aux@ == old(self).aux@,
            final(self).node_count == old(self).node_count,
            final(self).gmin == old(self).gmin,
            final(self).source_scale == old(self).source_scale,
            final(self).zero == old(self).zero,
            *final(final(self).builder) == *final(old(self).builder),
            *final(final(self).rhs) == *final(old(self).rhs),
            *final(final(self).aux) == *final(old(self).aux),
    {
        proof {
            if symmetric(self.builder@) {
                lemma_conductance_symmetric(self.builder@, a, b, g, minus_g);
            }
        }
        self.add(a, a, g);
        self.add(b, b, g);
        self.add(a, b, minus_g);
        self.add(b, a, minus_g);
    }

    /// Adds the branch of a voltage-defined device between the nodes `a` and `b`
    /// whose current is the unknown `k`. `one` and `minus_one` are the unit of the
    /// scalar and its negative.
    pub fn stamp_branch(&mut self, a: usize, b: usize, k: usize, one: T, minus_one: T)
        requires
            old(self).builder.wf(),
        ensures
            final(self).builder.wf(),
            final(self).builder.n == old(self).builder.n,
            final(self).builder@ == branch(old(self).builder@, a, b, k, one, minus_one),
            symmetric(old(self).builder@) ==> symmetric(final(self).builder@),
            old(self).builder.rows_in_range() && a < old(self).builder.n
                && b < old(self).builder.n && k < old(self).builder.n
                ==> final(self).builder.rows_in_range(),
            final(self).rhs@ == old(self).rhs@,
            final(self).aux@ == old(self).aux@,
            final(self).node_count == old(self).node_count,
            final(self).gmin == old(self).gmin,
            final(self).source_scale == old(self).source_scale,
            final(self).zero == old(self).zero,
            *final(final(self).builder) == *final(old(self).builder),
            *final(final(self).rhs) == *final(old(self).rhs),
            *final(final(self).aux) == *final(old(self).aux),
    {
        proof {
            if symmetric(self.builder@) {
                lemma_branch_symmetric(self.builder@, a, b, k, one, minus_one);
            }
        }
        self.add(a, k, one);
        self.add(b, k, minus_one);
        self.add(k, a, one);
        self.add(k, b, minus_one);
    }

    /// Adds a transconductance `g`: a current from `op` to `on` that the voltage
    /// between `cp` and `cn` controls. `minus_g` is the negative of `g`.
    pub fn stamp_transfer(
        &mut self,
        op: usize,
        on: usize,
        cp: usize,
        cn: usize,
        g: T,
        minus_g: T,
    )
        requires
            old(self).builder.wf(),
        ensures
            final(self).builder.wf(),
            final(self).builder.n == old(self).builder.n,
            final(self).builder@ == transfer(old(self).builder@, op, on, cp, cn, g, minus_g),
            old(self).builder.rows_in_range() && op < old(self).builder.n
                && on < old(self).builder.n ==> final(self).builder.rows_in_range(),
            final(self).rhs@ == old(self).rhs@,
            final(self).aux@ == old(self).aux@,
            final(self).node_count == old(self).node_count,
            final(self).gmin == old(self).gmin,
            final(self).source_scale == old(self).source_scale,
            final(self).zero == old(self).zero,
            *final(final(self).builder) == *final(old(self).builder),
            *final(final(self).rhs) == *final(old(self).rhs),
            *final(final(self).aux) == *final(old(self).aux),
    {
        self.add(op, cp, g);
        self.add(op, cn, minus_g);
        self.add(on, cp, minus_g);
        self.add(on, cn, g);
    }
}

} // verus!
