//! Linear Modified Nodal Analysis carriers and residual replay.

use hyperreal::Real;
use vstd::prelude::*;

use crate::error::{CircuitError, CircuitResult};
use crate::exact::{
    SignFact, ZeroFact, real_div, real_mul, real_quotient, real_rational_class, real_structural_sign, real_zero_knowledge, real_zero_status, real_add, real_difference, real_from_i64, real_of_int, real_product, real_sub, real_sum,
};
use crate::identity::{BranchId, ComponentId, NetId, PartRef};

verus! {

/// Unknown in a linear MNA system.
#[derive(Clone, Debug, PartialEq, Eq, PartialOrd, Ord)]
pub enum MnaUnknown {
    /// Voltage of a non-ground net.
    NetVoltage(NetId),
    /// Current through an introduced branch, such as a voltage source.
    BranchCurrent(BranchId),
}

/// Linear circuit stamp.
#[derive(Clone, Debug, PartialEq)]
pub enum LinearStamp {
    /// Conductance between two nets. `None` means ground.
    Conductance {
        /// Component id.
        component: ComponentId,
        /// Optional part reference.
        part: Option<PartRef>,
        /// Positive terminal.
        pos: Option<NetId>,
        /// Negative terminal.
        neg: Option<NetId>,
        /// Exact conductance.
        conductance: Real,
    },
    /// Current source from `pos` to `neg`.
    CurrentSource {
        /// Component id.
        component: ComponentId,
        /// Positive terminal.
        pos: Option<NetId>,
        /// Negative terminal.
        neg: Option<NetId>,
        /// Exact source current.
        current: Real,
    },
    /// Ideal voltage source introducing one branch-current unknown.
    VoltageSource {
        /// Component id.
        component: ComponentId,
        /// Branch id.
        branch: BranchId,
        /// Positive terminal.
        pos: Option<NetId>,
        /// Negative terminal.
        neg: Option<NetId>,
        /// Exact source voltage.
        voltage: Real,
    },
    /// Voltage-controlled current source from `pos` to `neg`.
    Vccs {
        /// Component id.
        component: ComponentId,
        /// Positive output terminal.
        pos: Option<NetId>,
        /// Negative output terminal.
        neg: Option<NetId>,
        /// Positive control terminal.
        ctrl_pos: Option<NetId>,
        /// Negative control terminal.
        ctrl_neg: Option<NetId>,
        /// Exact transconductance gain.
        transconductance: Real,
    },
    /// Linear companion conductance plus history current for transient R/C/L setup.
    Companion {
        /// Component id.
        component: ComponentId,
        /// Positive terminal.
        pos: Option<NetId>,
        /// Negative terminal.
        neg: Option<NetId>,
        /// Exact companion conductance.
        conductance: Real,
        /// Exact history/source current from `pos` to `neg`.
        history_current: Real,
    },
}


/// Dense exact linear MNA system.
#[derive(Clone, Debug, PartialEq)]
pub struct LinearMnaSystem {
    /// Unknown ordering.
    pub unknowns: Vec<MnaUnknown>,
    /// Dense matrix `A`.
    pub matrix: Vec<Vec<Real>>,
    /// Right-hand side `b`.
    pub rhs: Vec<Real>,
}

/// Exact residual replay report for a candidate vector.
#[derive(Clone, Debug, PartialEq)]
pub struct ResidualReplayReport {
    /// Residual vector `A*x - b`.
    pub residuals: Vec<Real>,
    /// True when every residual was certified zero.
    pub accepted: bool,
}

/// Exact linear solve candidate together with mandatory residual certification.
#[derive(Clone, Debug, PartialEq)]
pub struct LinearSolveReport {
    /// Candidate values in [`LinearMnaSystem::unknowns`] order.
    pub candidate: Vec<Real>,
    /// Exact replay of `A*x - b` for the returned candidate.
    pub replay: ResidualReplayReport,
}

// ---------------------------------------------------------------------------
// Specification of MNA assembly.
// ---------------------------------------------------------------------------

/// Rows of a dense matrix as sequences.
pub open spec fn matrix_view(matrix: Seq<Vec<Real>>) -> Seq<Seq<Real>> {
    matrix.map_values(|row: Vec<Real>| row@)
}

/// Identity texts of a net list.
pub open spec fn net_texts(nets: Seq<NetId>) -> Seq<Seq<char>> {
    nets.map_values(|net: NetId| net@)
}

/// Position of the first occurrence of `text`.
pub open spec fn first_index(texts: Seq<Seq<char>>, text: Seq<char>) -> Option<int>
    decreases texts.len(),
{
    if texts.len() == 0 {
        None
    } else if texts[0] == text {
        Some(0)
    } else {
        match first_index(texts.drop_first(), text) {
            Some(index) => Some(index + 1),
            None => None,
        }
    }
}

/// Some text occurs twice.
pub open spec fn has_duplicate_text(texts: Seq<Seq<char>>) -> bool {
    exists|i: int, j: int| 0 <= i < j < texts.len() && texts[i] == texts[j]
}

/// Branch introduced by a stamp, if it is a voltage source.
pub open spec fn stamp_branch(stamp: LinearStamp) -> Option<BranchId> {
    match stamp {
        LinearStamp::VoltageSource { branch, .. } => Some(branch),
        _ => None,
    }
}

/// Branches introduced by the voltage-source stamps, in stamp order.
pub open spec fn voltage_branches(stamps: Seq<LinearStamp>) -> Seq<BranchId>
    decreases stamps.len(),
{
    if stamps.len() == 0 {
        Seq::empty()
    } else {
        let earlier = voltage_branches(stamps.drop_last());
        match stamp_branch(stamps.last()) {
            Some(branch) => earlier.push(branch),
            None => earlier,
        }
    }
}

/// Branch identity texts of the voltage-source stamps.
pub open spec fn branch_texts(stamps: Seq<LinearStamp>) -> Seq<Seq<char>> {
    voltage_branches(stamps).map_values(|branch: BranchId| branch@)
}

/// Unknown ordering: net voltages in the given order, then one branch
/// current per voltage-source stamp in stamp order.
pub open spec fn spec_unknowns(nets: Seq<NetId>, stamps: Seq<LinearStamp>) -> Seq<MnaUnknown> {
    nets.map_values(|net: NetId| MnaUnknown::NetVoltage(net)) + voltage_branches(stamps).map_values(
        |branch: BranchId| MnaUnknown::BranchCurrent(branch),
    )
}

/// Slot of an optional terminal: `Some(None)` for ground, `Some(Some(i))` for
/// the voltage unknown of a listed net, `None` for an unlisted net.
pub open spec fn spec_slot(texts: Seq<Seq<char>>, net: Option<NetId>) -> Option<Option<int>> {
    match net {
        None => Some(None),
        Some(net) => match first_index(texts, net@) {
            Some(index) => Some(Some(index)),
            None => None,
        },
    }
}

/// All-zero square matrix.
pub open spec fn zero_matrix(dimension: nat) -> Seq<Seq<Real>> {
    Seq::new(dimension, |i: int| Seq::new(dimension, |j: int| real_of_int(0)))
}

/// All-zero vector.
pub open spec fn zero_vector(dimension: nat) -> Seq<Real> {
    Seq::new(dimension, |i: int| real_of_int(0))
}

/// Matrix with `value` added to entry `(row, column)`.
pub open spec fn add_entry(m: Seq<Seq<Real>>, row: int, column: int, value: Real) -> Seq<Seq<Real>> {
    m.update(row, m[row].update(column, real_sum(m[row][column], value)))
}

/// Matrix with `value` subtracted from entry `(row, column)`.
pub open spec fn sub_entry(m: Seq<Seq<Real>>, row: int, column: int, value: Real) -> Seq<Seq<Real>> {
    m.update(row, m[row].update(column, real_difference(m[row][column], value)))
}

/// Conductance `g` between `pos` and `neg`: `+g` on both diagonals, `-g` on
/// both couplings.
pub open spec fn conductance_stamped(m: Seq<Seq<Real>>, pos: Option<int>, neg: Option<int>, g: Real) -> Seq<Seq<Real>> {
    let m1 = match pos {
        Some(p) => add_entry(m, p, p, g),
        None => m,
    };
    let m2 = match neg {
        Some(n) => add_entry(m1, n, n, g),
        None => m1,
    };
    match (pos, neg) {
        (Some(p), Some(n)) => sub_entry(sub_entry(m2, p, n, g), n, p, g),
        _ => m2,
    }
}

/// Current `i` leaving `pos` and entering `neg`.
pub open spec fn current_stamped(rhs: Seq<Real>, pos: Option<int>, neg: Option<int>, i: Real) -> Seq<Real> {
    let r1 = match pos {
        Some(p) => rhs.update(p, real_difference(rhs[p], i)),
        None => rhs,
    };
    match neg {
        Some(n) => r1.update(n, real_sum(r1[n], i)),
        None => r1,
    }
}

/// Voltage source coupling the branch current unknown to its terminals.
pub open spec fn voltage_matrix_stamped(m: Seq<Seq<Real>>, branch: int, pos: Option<int>, neg: Option<int>) -> Seq<Seq<Real>> {
    let one = real_of_int(1);
    let m1 = match pos {
        Some(p) => add_entry(add_entry(m, p, branch, one), branch, p, one),
        None => m,
    };
    match neg {
        Some(n) => sub_entry(sub_entry(m1, n, branch, one), branch, n, one),
        None => m1,
    }
}

/// Voltage-controlled current source entries.
pub open spec fn vccs_stamped(
    m: Seq<Seq<Real>>,
    pos: Option<int>,
    neg: Option<int>,
    ctrl_pos: Option<int>,
    ctrl_neg: Option<int>,
    g: Real,
) -> Seq<Seq<Real>> {
    let m1 = match (pos, ctrl_pos) {
        (Some(r), Some(c)) => add_entry(m, r, c, g),
        _ => m,
    };
    let m2 = match (pos, ctrl_neg) {
        (Some(r), Some(c)) => sub_entry(m1, r, c, g),
        _ => m1,
    };
    let m3 = match (neg, ctrl_pos) {
        (Some(r), Some(c)) => sub_entry(m2, r, c, g),
        _ => m2,
    };
    match (neg, ctrl_neg) {
        (Some(r), Some(c)) => add_entry(m3, r, c, g),
        _ => m3,
    }
}

/// One stamp applied to `(m, rhs)`; `None` when a terminal net is unlisted.
/// `branch` is the slot of the stamp's branch current if it has one.
pub open spec fn stamp_applied(
    texts: Seq<Seq<char>>,
    stamp: LinearStamp,
    m: Seq<Seq<Real>>,
    rhs: Seq<Real>,
    branch: int,
) -> Option<(Seq<Seq<Real>>, Seq<Real>)> {
    match stamp {
        LinearStamp::Conductance { pos, neg, conductance, .. } => {
            match (spec_slot(texts, pos), spec_slot(texts, neg)) {
                (Some(p), Some(n)) => Some((conductance_stamped(m, p, n, conductance), rhs)),
                _ => None,
            }
        },
        LinearStamp::CurrentSource { pos, neg, current, .. } => {
            match (spec_slot(texts, pos), spec_slot(texts, neg)) {
                (Some(p), Some(n)) => Some((m, current_stamped(rhs, p, n, current))),
                _ => None,
            }
        },
        LinearStamp::VoltageSource { pos, neg, voltage, .. } => {
            match (spec_slot(texts, pos), spec_slot(texts, neg)) {
                (Some(p), Some(n)) => Some(
                    (
                        voltage_matrix_stamped(m, branch, p, n),
                        rhs.update(branch, real_sum(rhs[branch], voltage)),
                    ),
                ),
                _ => None,
            }
        },
        LinearStamp::Vccs { pos, neg, ctrl_pos, ctrl_neg, transconductance, .. } => {
            match (
                spec_slot(texts, pos),
                spec_slot(texts, neg),
                spec_slot(texts, ctrl_pos),
                spec_slot(texts, ctrl_neg),
            ) {
                (Some(p), Some(n), Some(cp), Some(cn)) => Some(
                    (vccs_stamped(m, p, n, cp, cn, transconductance), rhs),
                ),
                _ => None,
            }
        },
        LinearStamp::Companion { pos, neg, conductance, history_current, .. } => {
            match (spec_slot(texts, pos), spec_slot(texts, neg)) {
                (Some(p), Some(n)) => Some(
                    (conductance_stamped(m, p, n, conductance), current_stamped(rhs, p, n, history_current)),
                ),
                _ => None,
            }
        },
    }
}

/// The system after stamping the first `count` stamps onto zeros, or `None`
/// when one of them references an unlisted net.
pub open spec fn assembled(texts: Seq<Seq<char>>, stamps: Seq<LinearStamp>, count: int, dimension: nat) -> Option<(Seq<Seq<Real>>, Seq<Real>)>
    decreases count,
{
    if count <= 0 {
        Some((zero_matrix(dimension), zero_vector(dimension)))
    } else {
        match assembled(texts, stamps, count - 1, dimension) {
            None => None,
            Some(state) => stamp_applied(
                texts,
                stamps[count - 1],
                state.0,
                state.1,
                (texts.len() + voltage_branches(stamps.take(count - 1)).len()) as int,
            ),
        }
    }
}

/// The dense system `from_stamps` builds for `nets` and `stamps`:
/// `Err(DuplicateUnknown)` when two unknowns share an identity,
/// `Err(MissingNet)` when a stamp references an unlisted net, otherwise the
/// unknown ordering with every stamp applied in order.
pub open spec fn spec_from_stamps(nets: Seq<NetId>, stamps: Seq<LinearStamp>) -> Result<(Seq<MnaUnknown>, Seq<Seq<Real>>, Seq<Real>), CircuitError> {
    let dimension = nets.len() + voltage_branches(stamps).len();
    if has_duplicate_text(net_texts(nets)) || has_duplicate_text(branch_texts(stamps)) {
        Err(CircuitError::DuplicateUnknown)
    } else {
        match assembled(net_texts(nets), stamps, stamps.len() as int, dimension) {
            None => Err(CircuitError::MissingNet),
            Some(state) => Ok((spec_unknowns(nets, stamps), state.0, state.1)),
        }
    }
}

// ---------------------------------------------------------------------------
// Lemmas.
// ---------------------------------------------------------------------------

proof fn lemma_first_index(texts: Seq<Seq<char>>, text: Seq<char>, index: int)
    requires
        0 <= index <= texts.len(),
        forall|j: int| 0 <= j < index ==> texts[j] != text,
        index < texts.len() ==> texts[index] == text,
    ensures
        index < texts.len() ==> first_index(texts, text) == Some(index),
        index == texts.len() ==> first_index(texts, text) is None,
    decreases index,
{
    if texts.len() > 0 && index > 0 {
        assert forall|j: int| 0 <= j < index - 1 implies texts.drop_first()[j] != text by {
            assert(texts.drop_first()[j] == texts[j + 1]);
        }
        lemma_first_index(texts.drop_first(), text, index - 1);
    }
}

proof fn lemma_first_index_bound(texts: Seq<Seq<char>>, text: Seq<char>)
    ensures
        first_index(texts, text) matches Some(i) ==> 0 <= i < texts.len() && texts[i] == text,
    decreases texts.len(),
{
    if texts.len() > 0 && texts[0] != text {
        lemma_first_index_bound(texts.drop_first(), text);
    }
}

pub(crate) proof fn lemma_voltage_branches_prefix(stamps: Seq<LinearStamp>, count: int)
    requires
        0 <= count < stamps.len(),
    ensures
        voltage_branches(stamps.take(count + 1)) == match stamp_branch(stamps[count]) {
            Some(branch) => voltage_branches(stamps.take(count)).push(branch),
            None => voltage_branches(stamps.take(count)),
        },
{
    assert(stamps.take(count + 1).drop_last() =~= stamps.take(count));
}

proof fn lemma_voltage_branches_monotone(stamps: Seq<LinearStamp>, count: int)
    requires
        0 <= count <= stamps.len(),
    ensures
        voltage_branches(stamps.take(count)).len() <= voltage_branches(stamps).len(),
        voltage_branches(stamps.take(count)) == voltage_branches(stamps).take(
            voltage_branches(stamps.take(count)).len() as int,
        ),
    decreases stamps.len() - count,
{
    if count == stamps.len() {
        assert(stamps.take(count) =~= stamps);
    } else {
        lemma_voltage_branches_monotone(stamps, count + 1);
        lemma_voltage_branches_prefix(stamps, count);
    }
}

proof fn lemma_assembled_none_stays(texts: Seq<Seq<char>>, stamps: Seq<LinearStamp>, count: int, later: int, dimension: nat)
    requires
        0 <= count <= later,
        assembled(texts, stamps, count, dimension) is None,
    ensures
        assembled(texts, stamps, later, dimension) is None,
    decreases later - count,
{
    if later > count {
        lemma_assembled_none_stays(texts, stamps, count, later - 1, dimension);
    }
}

// ---------------------------------------------------------------------------
// Executable assembly.
// ---------------------------------------------------------------------------

/// Square shape of a dense matrix.
pub open spec fn is_square(m: Seq<Seq<Real>>, dimension: nat) -> bool {
    &&& m.len() == dimension
    &&& forall|i: int| 0 <= i < dimension ==> #[trigger] m[i].len() == dimension
}

fn add_to_entry(matrix: &mut Vec<Vec<Real>>, row: usize, column: usize, value: &Real, Ghost(dimension): Ghost<nat>)
    requires
        is_square(matrix_view(old(matrix)@), dimension),
        row < dimension,
        column < dimension,
    ensures
        is_square(matrix_view(final(matrix)@), dimension),
        matrix_view(final(matrix)@) == add_entry(matrix_view(old(matrix)@), row as int, column as int, *value),
{
    proof {
        assert(matrix_view(matrix@)[row as int] == matrix@[row as int]@);
    }
    let sum = real_add(&matrix[row][column], value);
    let mut taken = matrix.remove(row);
    taken.set(column, sum);
    matrix.insert(row, taken);
    proof {
        assert(matrix_view(matrix@) =~= add_entry(matrix_view(old(matrix)@), row as int, column as int, *value));
    }
}

fn sub_from_entry(matrix: &mut Vec<Vec<Real>>, row: usize, column: usize, value: &Real, Ghost(dimension): Ghost<nat>)
    requires
        is_square(matrix_view(old(matrix)@), dimension),
        row < dimension,
        column < dimension,
    ensures
        is_square(matrix_view(final(matrix)@), dimension),
        matrix_view(final(matrix)@) == sub_entry(matrix_view(old(matrix)@), row as int, column as int, *value),
{
    proof {
        assert(matrix_view(matrix@)[row as int] == matrix@[row as int]@);
    }
    let difference = real_sub(&matrix[row][column], value);
    let mut taken = matrix.remove(row);
    taken.set(column, difference);
    matrix.insert(row, taken);
    proof {
        assert(matrix_view(matrix@) =~= sub_entry(matrix_view(old(matrix)@), row as int, column as int, *value));
    }
}


/// Optional slot as a mathematical index.
pub open spec fn opt_index(slot: Option<usize>) -> Option<int> {
    match slot {
        Some(i) => Some(i as int),
        None => None,
    }
}

/// Every present slot is inside the system.
pub open spec fn slot_below(slot: Option<usize>, dimension: nat) -> bool {
    match slot {
        Some(i) => i < dimension,
        None => true,
    }
}

fn stamp_conductance(matrix: &mut Vec<Vec<Real>>, pos: Option<usize>, neg: Option<usize>, conductance: &Real, Ghost(dimension): Ghost<nat>)
    requires
        is_square(matrix_view(old(matrix)@), dimension),
        slot_below(pos, dimension),
        slot_below(neg, dimension),
    ensures
        is_square(matrix_view(final(matrix)@), dimension),
        matrix_view(final(matrix)@) == conductance_stamped(matrix_view(old(matrix)@), opt_index(pos), opt_index(neg), *conductance),
{
    if let Some(p) = pos {
        add_to_entry(matrix, p, p, conductance, Ghost(dimension));
    }
    if let Some(n) = neg {
        add_to_entry(matrix, n, n, conductance, Ghost(dimension));
    }
    if let (Some(p), Some(n)) = (pos, neg) {
        sub_from_entry(matrix, p, n, conductance, Ghost(dimension));
        sub_from_entry(matrix, n, p, conductance, Ghost(dimension));
    }
}

fn stamp_current(rhs: &mut Vec<Real>, pos: Option<usize>, neg: Option<usize>, current: &Real)
    requires
        slot_below(pos, old(rhs)@.len()),
        slot_below(neg, old(rhs)@.len()),
    ensures
        final(rhs)@ == current_stamped(old(rhs)@, opt_index(pos), opt_index(neg), *current),
{
    if let Some(p) = pos {
        let value = real_sub(&rhs[p], current);
        rhs.set(p, value);
    }
    if let Some(n) = neg {
        let value = real_add(&rhs[n], current);
        rhs.set(n, value);
    }
}

fn stamp_voltage(
    matrix: &mut Vec<Vec<Real>>,
    rhs: &mut Vec<Real>,
    branch: usize,
    pos: Option<usize>,
    neg: Option<usize>,
    voltage: &Real,
    Ghost(dimension): Ghost<nat>,
)
    requires
        is_square(matrix_view(old(matrix)@), dimension),
        old(rhs)@.len() == dimension,
        branch < dimension,
        slot_below(pos, dimension),
        slot_below(neg, dimension),
    ensures
        is_square(matrix_view(final(matrix)@), dimension),
        matrix_view(final(matrix)@) == voltage_matrix_stamped(matrix_view(old(matrix)@), branch as int, opt_index(pos), opt_index(neg)),
        final(rhs)@ == old(rhs)@.update(branch as int, real_sum(old(rhs)@[branch as int], *voltage)),
{
    let one = real_from_i64(1);
    if let Some(p) = pos {
        add_to_entry(matrix, p, branch, &one, Ghost(dimension));
        add_to_entry(matrix, branch, p, &one, Ghost(dimension));
    }
    if let Some(n) = neg {
        sub_from_entry(matrix, n, branch, &one, Ghost(dimension));
        sub_from_entry(matrix, branch, n, &one, Ghost(dimension));
    }
    let value = real_add(&rhs[branch], voltage);
    rhs.set(branch, value);
}

fn stamp_vccs(
    matrix: &mut Vec<Vec<Real>>,
    pos: Option<usize>,
    neg: Option<usize>,
    ctrl_pos: Option<usize>,
    ctrl_neg: Option<usize>,
    transconductance: &Real,
    Ghost(dimension): Ghost<nat>,
)
    requires
        is_square(matrix_view(old(matrix)@), dimension),
        slot_below(pos, dimension),
        slot_below(neg, dimension),
        slot_below(ctrl_pos, dimension),
        slot_below(ctrl_neg, dimension),
    ensures
        is_square(matrix_view(final(matrix)@), dimension),
        matrix_view(final(matrix)@) == vccs_stamped(
            matrix_view(old(matrix)@),
            opt_index(pos),
            opt_index(neg),
            opt_index(ctrl_pos),
            opt_index(ctrl_neg),
            *transconductance,
        ),
{
    if let (Some(row), Some(column)) = (pos, ctrl_pos) {
        add_to_entry(matrix, row, column, transconductance, Ghost(dimension));
    }
    if let (Some(row), Some(column)) = (pos, ctrl_neg) {
        sub_from_entry(matrix, row, column, transconductance, Ghost(dimension));
    }
    if let (Some(row), Some(column)) = (neg, ctrl_pos) {
        sub_from_entry(matrix, row, column, transconductance, Ghost(dimension));
    }
    if let (Some(row), Some(column)) = (neg, ctrl_neg) {
        add_to_entry(matrix, row, column, transconductance, Ghost(dimension));
    }
}

/// Slot of an optional terminal among the listed nets.
fn net_index(nets: &Vec<NetId>, net: &Option<NetId>) -> (slot: CircuitResult<Option<usize>>)
    ensures
        match spec_slot(net_texts(nets@), *net) {
            None => slot == Err::<Option<usize>, CircuitError>(CircuitError::MissingNet),
            Some(expected) => slot matches Ok(found) && opt_index(found) == expected && slot_below(found, nets@.len()),
        },
{
    match net {
        None => Ok(None),
        Some(wanted) => {
            let mut k: usize = 0;
            while k < nets.len()
                invariant
                    k <= nets@.len(),
                    *net == Some(*wanted),
                    forall|j: int| 0 <= j < k ==> net_texts(nets@)[j] != wanted@,
                decreases nets@.len() - k,
            {
                proof {
                    assert(net_texts(nets@).len() == nets@.len());
                    assert(net_texts(nets@)[k as int] == nets@[k as int]@);
                }
                if nets[k].same(wanted) {
                    proof {
                        lemma_first_index(net_texts(nets@), wanted@, k as int);
                    }
                    return Ok(Some(k));
                }
                k = k + 1;
            }
            proof {
                lemma_first_index(net_texts(nets@), wanted@, k as int);
            }
            Err(CircuitError::MissingNet)
        },
    }
}

/// Slots of a terminal pair; the positive terminal is resolved first.
fn net_pair(nets: &Vec<NetId>, pos: &Option<NetId>, neg: &Option<NetId>) -> (pair: CircuitResult<(Option<usize>, Option<usize>)>)
    ensures
        match (spec_slot(net_texts(nets@), *pos), spec_slot(net_texts(nets@), *neg)) {
            (Some(p), Some(q)) => pair matches Ok((a, b)) && opt_index(a) == p && opt_index(b) == q
                && slot_below(a, nets@.len()) && slot_below(b, nets@.len()),
            _ => pair == Err::<(Option<usize>, Option<usize>), CircuitError>(CircuitError::MissingNet),
        },
{
    let p = net_index(nets, pos)?;
    let q = net_index(nets, neg)?;
    Ok((p, q))
}

/// True when two nets of the list share identity text.
fn nets_repeat(nets: &Vec<NetId>) -> (repeat: bool)
    ensures
        repeat == has_duplicate_text(net_texts(nets@)),
{
    let ghost texts = net_texts(nets@);
    let mut j: usize = 0;
    while j < nets.len()
        invariant
            j <= nets@.len(),
            texts == net_texts(nets@),
            forall|a: int, b: int| 0 <= a < b < j ==> texts[a] != texts[b],
        decreases nets@.len() - j,
    {
        let mut i: usize = 0;
        while i < j
            invariant
                i <= j < nets@.len(),
                texts == net_texts(nets@),
                forall|a: int| 0 <= a < i ==> texts[a] != texts[j as int],
            decreases j - i,
        {
            proof {
                assert(texts[i as int] == nets@[i as int]@);
                assert(texts[j as int] == nets@[j as int]@);
            }
            if nets[i].same(&nets[j]) {
                return true;
            }
            i = i + 1;
        }
        j = j + 1;
    }
    false
}

/// True when two branches of the list share identity text.
fn branches_repeat(branches: &Vec<BranchId>) -> (repeat: bool)
    ensures
        repeat == has_duplicate_text(branches@.map_values(|branch: BranchId| branch@)),
{
    let ghost texts = branches@.map_values(|branch: BranchId| branch@);
    let mut j: usize = 0;
    while j < branches.len()
        invariant
            j <= branches@.len(),
            texts == branches@.map_values(|branch: BranchId| branch@),
            forall|a: int, b: int| 0 <= a < b < j ==> texts[a] != texts[b],
        decreases branches@.len() - j,
    {
        let mut i: usize = 0;
        while i < j
            invariant
                i <= j < branches@.len(),
                texts == branches@.map_values(|branch: BranchId| branch@),
                forall|a: int| 0 <= a < i ==> texts[a] != texts[j as int],
            decreases j - i,
        {
            proof {
                assert(texts[i as int] == branches@[i as int]@);
                assert(texts[j as int] == branches@[j as int]@);
            }
            if branches[i].same(&branches[j]) {
                return true;
            }
            i = i + 1;
        }
        j = j + 1;
    }
    false
}


impl LinearMnaSystem {
    /// Builds a dense exact MNA system from known non-ground nets and stamps.
    ///
    /// Unknowns are the listed net voltages followed by one branch current
    /// per voltage-source stamp. Duplicate unknown identities are rejected
    /// before any stamp is applied; a stamp naming an unlisted net is rejected.
    pub fn from_stamps(nets: Vec<NetId>, stamps: &[LinearStamp]) -> (result: CircuitResult<Self>)
        requires
            nets@.len() + voltage_branches(stamps@).len() <= usize::MAX,
        ensures
            match spec_from_stamps(nets@, stamps@) {
                Err(error) => result == Err::<Self, CircuitError>(error),
                Ok(expected) => result matches Ok(system) && system.unknowns@ == expected.0
                    && matrix_view(system.matrix@) == expected.1 && system.rhs@ == expected.2,
            },
    {
        let ghost stamp_seq = stamps@;
        let mut branches: Vec<BranchId> = Vec::new();
        let mut k: usize = 0;
        while k < stamps.len()
            invariant
                k <= stamps@.len(),
                stamp_seq == stamps@,
                branches@ == voltage_branches(stamps@.take(k as int)),
            decreases stamps@.len() - k,
        {
            proof {
                lemma_voltage_branches_prefix(stamps@, k as int);
            }
            if let LinearStamp::VoltageSource { branch, .. } = &stamps[k] {
                branches.push(branch.clone());
            }
            k = k + 1;
        }
        proof {
            assert(stamps@.take(stamps@.len() as int) =~= stamps@);
        }
        if nets_repeat(&nets) || branches_repeat(&branches) {
            return Err(CircuitError::DuplicateUnknown);
        }
        let mut unknowns: Vec<MnaUnknown> = Vec::new();
        let mut n: usize = 0;
        while n < nets.len()
            invariant
                n <= nets@.len(),
                unknowns@ == nets@.take(n as int).map_values(|net: NetId| MnaUnknown::NetVoltage(net)),
            decreases nets@.len() - n,
        {
            unknowns.push(MnaUnknown::NetVoltage(nets[n].clone()));
            n = n + 1;
            proof {
                assert(unknowns@ =~= nets@.take(n as int).map_values(|net: NetId| MnaUnknown::NetVoltage(net)));
            }
        }
        let mut b: usize = 0;
        while b < branches.len()
            invariant
                n == nets@.len(),
                b <= branches@.len(),
                unknowns@ == nets@.map_values(|net: NetId| MnaUnknown::NetVoltage(net))
                    + branches@.take(b as int).map_values(|branch: BranchId| MnaUnknown::BranchCurrent(branch)),
            decreases branches@.len() - b,
        {
            proof {
                assert(nets@.take(n as int) =~= nets@);
            }
            unknowns.push(MnaUnknown::BranchCurrent(branches[b].clone()));
            b = b + 1;
            proof {
                assert(unknowns@ =~= nets@.map_values(|net: NetId| MnaUnknown::NetVoltage(net))
                    + branches@.take(b as int).map_values(|branch: BranchId| MnaUnknown::BranchCurrent(branch)));
            }
        }
        proof {
            assert(nets@.take(n as int) =~= nets@);
            assert(branches@.take(b as int) =~= branches@);
            assert(unknowns@ =~= spec_unknowns(nets@, stamps@));
        }
        proof {
            assert(branches@ == voltage_branches(stamps@));
        }
        let dimension = nets.len() + branches.len();
        let ghost dim = dimension as nat;
        let ghost texts = net_texts(nets@);
        let zero = real_from_i64(0);
        let mut rhs: Vec<Real> = Vec::new();
        let mut r: usize = 0;
        while r < dimension
            invariant
                r <= dimension,
                rhs@ == Seq::new(r as nat, |i: int| real_of_int(0)),
                zero == real_of_int(0),
            decreases dimension - r,
        {
            rhs.push(zero.clone());
            r = r + 1;
            proof {
                assert(rhs@ =~= Seq::new(r as nat, |i: int| real_of_int(0)));
            }
        }
        let mut matrix: Vec<Vec<Real>> = Vec::new();
        let mut row_index: usize = 0;
        while row_index < dimension
            invariant
                row_index <= dimension,
                zero == real_of_int(0),
                matrix_view(matrix@) == Seq::new(row_index as nat, |i: int| Seq::new(dimension as nat, |j: int| real_of_int(0))),
            decreases dimension - row_index,
        {
            let mut row: Vec<Real> = Vec::new();
            let mut column: usize = 0;
            while column < dimension
                invariant
                    column <= dimension,
                    row_index < dimension,
                    zero == real_of_int(0),
                    row@ == Seq::new(column as nat, |j: int| real_of_int(0)),
                    matrix_view(matrix@) == Seq::new(row_index as nat, |i: int| Seq::new(dimension as nat, |j: int| real_of_int(0))),
                decreases dimension - column,
            {
                row.push(zero.clone());
                column = column + 1;
                proof {
                    assert(row@ =~= Seq::new(column as nat, |j: int| real_of_int(0)));
                }
            }
            let ghost prev = matrix_view(matrix@);
            matrix.push(row);
            proof {
                assert(matrix_view(matrix@) =~= prev.push(row@));
                assert(row@ =~= Seq::new(dimension as nat, |j: int| real_of_int(0)));
            }
            row_index = row_index + 1;
            proof {
                assert(matrix_view(matrix@) =~= Seq::new(row_index as nat, |i: int| Seq::new(dimension as nat, |j: int| real_of_int(0))));
            }
        }
        proof {
            assert(matrix_view(matrix@) =~= zero_matrix(dim));
            assert(rhs@ =~= zero_vector(dim));
        }
        let mut branch_count: usize = 0;
        let mut s: usize = 0;
        while s < stamps.len()
            invariant
                s <= stamps@.len(),
                stamp_seq == stamps@,
                texts == net_texts(nets@),
                texts.len() == nets@.len(),
                dim == dimension,
                dimension == nets@.len() + voltage_branches(stamps@).len(),
                branch_count == voltage_branches(stamps@.take(s as int)).len(),
                is_square(matrix_view(matrix@), dim),
                rhs@.len() == dim,
                assembled(texts, stamps@, s as int, dim) == Some((matrix_view(matrix@), rhs@)),
                !has_duplicate_text(texts),
                !has_duplicate_text(branch_texts(stamps@)),
            decreases stamps@.len() - s,
        {
            proof {
                lemma_voltage_branches_prefix(stamps@, s as int);
                lemma_voltage_branches_monotone(stamps@, s as int + 1);
            }
            let slot_base = nets.len() + branch_count;
            match &stamps[s] {
                LinearStamp::Conductance { pos, neg, conductance, .. } => {
                    let (p, q) = match net_pair(&nets, pos, neg) {
                        Ok(pair) => pair,
                        Err(_) => {
                            proof {
                                lemma_assembled_none_stays(texts, stamps@, s as int + 1, stamps@.len() as int, dim);
                            }
                            return Err(CircuitError::MissingNet);
                        },
                    };
                    stamp_conductance(&mut matrix, p, q, conductance, Ghost(dim));
                },
                LinearStamp::CurrentSource { pos, neg, current, .. } => {
                    let (p, q) = match net_pair(&nets, pos, neg) {
                        Ok(pair) => pair,
                        Err(_) => {
                            proof {
                                lemma_assembled_none_stays(texts, stamps@, s as int + 1, stamps@.len() as int, dim);
                            }
                            return Err(CircuitError::MissingNet);
                        },
                    };
                    stamp_current(&mut rhs, p, q, current);
                },
                LinearStamp::VoltageSource { pos, neg, voltage, .. } => {
                    let (p, q) = match net_pair(&nets, pos, neg) {
                        Ok(pair) => pair,
                        Err(_) => {
                            proof {
                                lemma_assembled_none_stays(texts, stamps@, s as int + 1, stamps@.len() as int, dim);
                            }
                            return Err(CircuitError::MissingNet);
                        },
                    };
                    stamp_voltage(&mut matrix, &mut rhs, slot_base, p, q, voltage, Ghost(dim));
                    branch_count = branch_count + 1;
                },
                LinearStamp::Vccs { pos, neg, ctrl_pos, ctrl_neg, transconductance, .. } => {
                    let pq = net_pair(&nets, pos, neg);
                    let controls = net_pair(&nets, ctrl_pos, ctrl_neg);
                    let (p, q, cp, cq) = match (pq, controls) {
                        (Ok((p, q)), Ok((cp, cq))) => (p, q, cp, cq),
                        _ => {
                            proof {
                                lemma_assembled_none_stays(texts, stamps@, s as int + 1, stamps@.len() as int, dim);
                            }
                            return Err(CircuitError::MissingNet);
                        },
                    };
                    stamp_vccs(&mut matrix, p, q, cp, cq, transconductance, Ghost(dim));
                },
                LinearStamp::Companion { pos, neg, conductance, history_current, .. } => {
                    let (p, q) = match net_pair(&nets, pos, neg) {
                        Ok(pair) => pair,
                        Err(_) => {
                            proof {
                                lemma_assembled_none_stays(texts, stamps@, s as int + 1, stamps@.len() as int, dim);
                            }
                            return Err(CircuitError::MissingNet);
                        },
                    };
                    stamp_conductance(&mut matrix, p, q, conductance, Ghost(dim));
                    stamp_current(&mut rhs, p, q, history_current);
                },
            }
            s = s + 1;
        }
        proof {
            assert(stamps@.take(stamps@.len() as int) =~= stamps@);
        }
        Ok(LinearMnaSystem { unknowns, matrix, rhs })
    }
}


/// Failure of `hypersolve`'s dense residual replay.
#[derive(Clone, Copy, Debug, PartialEq, Eq, Structural)]
pub enum ReplayFailure {
    /// Matrix, right-hand side, or candidate dimensions do not match.
    DimensionMismatch,
    /// A residual sign could not be certified within the requested bound.
    UnknownResidual,
}

/// `row · x` accumulated from zero in index order.
pub open spec fn row_dot(row: Seq<Real>, x: Seq<Real>, count: int) -> Real
    decreases count,
{
    if count <= 0 {
        real_of_int(0)
    } else {
        real_sum(row_dot(row, x, count - 1), real_product(row[count - 1], x[count - 1]))
    }
}

/// Residual vector `A*x - b` with hyperreal arithmetic.
pub open spec fn residual_vector(matrix: Seq<Seq<Real>>, rhs: Seq<Real>, x: Seq<Real>) -> Seq<Real> {
    Seq::new(rhs.len(), |i: int| real_difference(row_dot(matrix[i], x, x.len() as int), rhs[i]))
}

/// Shapes accepted by the dense replay: one right-hand side per row and one
/// candidate value per column.
pub open spec fn replay_shape_ok(matrix: Seq<Seq<Real>>, rhs: Seq<Real>, candidate: Seq<Real>) -> bool {
    matrix.len() == rhs.len() && forall|i: int| 0 <= i < matrix.len() ==> #[trigger] matrix[i].len() == candidate.len()
}

/// Every value of the sequence is an exact rational.
pub open spec fn all_rational(values: Seq<Real>) -> bool {
    forall|i: int| 0 <= i < values.len() ==> #[trigger] real_rational_class(values[i])
}

/// Every entry of every row is an exact rational.
pub open spec fn rows_rational(m: Seq<Seq<Real>>) -> bool {
    forall|i: int, j: int| 0 <= i < m.len() && 0 <= j < m[i].len() ==> #[trigger] real_rational_class(m[i][j])
}

/// Every coefficient and right-hand side of the system is an exact rational.
pub open spec fn system_rational(system: LinearMnaSystem) -> bool {
    rows_rational(matrix_view(system.matrix@)) && all_rational(system.rhs@)
}

/// Every value of the sequence is structurally zero.
pub open spec fn all_structurally_zero(values: Seq<Real>) -> bool {
    forall|i: int| 0 <= i < values.len() ==> #[trigger] real_structural_sign(values[i]) == Some(SignFact::Zero)
}

/// What an acceptance flag says of the residuals it was certified for: an
/// accepted replay has every exact-rational residual zero, and when every
/// residual is an exact rational the replay is accepted exactly when all of
/// them are zero.
pub open spec fn acceptance_consistent(residuals: Seq<Real>, accepted: bool) -> bool {
    &&& accepted ==> forall|i: int|
        0 <= i < residuals.len() && #[trigger] real_rational_class(residuals[i]) ==> real_structural_sign(residuals[i])
            == Some(SignFact::Zero)
    &&& all_rational(residuals) ==> (accepted <==> all_structurally_zero(residuals))
}

/// Replays a candidate through exact residuals with
/// `hypersolve::replay_dense_linear_residuals`, handing out the residuals, the
/// certified sign of each row and the acceptance flag. From its source: the
/// shape check, the residual formula `A[i]·x - b[i]` (accumulated from zero),
/// one sign per residual, acceptance exactly when every sign is zero, and an
/// undecided sign only for a residual that is not an exact rational (an exact
/// rational's sign is read from the rational itself). The sign of any other
/// residual is certified by refinement that may be cut short; nothing is
/// stated of it.
#[verifier::external_body]
fn replay_dense(matrix: &Vec<Vec<Real>>, rhs: &Vec<Real>, candidate: &[Real], min_precision: i32) -> (outcome: Result<(Vec<Real>, Vec<SignFact>, bool), ReplayFailure>)
    ensures
        (outcome matches Err(ReplayFailure::DimensionMismatch)) <==> !replay_shape_ok(
            matrix_view(matrix@),
            rhs@,
            candidate@,
        ),
        outcome matches Err(ReplayFailure::UnknownResidual) ==> replay_shape_ok(
            matrix_view(matrix@),
            rhs@,
            candidate@,
        ) && !all_rational(residual_vector(matrix_view(matrix@), rhs@, candidate@)),
        rows_rational(matrix_view(matrix@)) && all_rational(rhs@) && all_rational(candidate@) ==> !(outcome matches Err(
            ReplayFailure::UnknownResidual,
        )) && (outcome matches Ok(report) ==> all_rational(report.0@)),
        outcome matches Ok(report) ==> {
            &&& report.0@ == residual_vector(matrix_view(matrix@), rhs@, candidate@)
            &&& report.1@.len() == report.0@.len()
            &&& (report.2 <==> forall|i: int| 0 <= i < report.1@.len() ==> #[trigger] report.1@[i] == SignFact::Zero)
            &&& forall|i: int|
                0 <= i < report.1@.len() && #[trigger] real_rational_class(report.0@[i]) ==> real_structural_sign(report.0@[i])
                    == Some(report.1@[i])
        },
{
    match hypersolve::replay_dense_linear_residuals(matrix, rhs, candidate, min_precision) {
        Ok(report) => {
            let signs = report.rows.iter().map(|row| match row.sign {
                hyperreal::RealSign::Negative => SignFact::Negative,
                hyperreal::RealSign::Zero => SignFact::Zero,
                hyperreal::RealSign::Positive => SignFact::Positive,
            }).collect();
            Ok((report.residuals, signs, report.accepted))
        },
        Err(hypersolve::DenseResidualReplayError::DimensionMismatch) => Err(ReplayFailure::DimensionMismatch),
        Err(hypersolve::DenseResidualReplayError::UnknownResidual) => Err(ReplayFailure::UnknownResidual),
    }
}

/// Refinement floor used when certifying residual signs.
pub const REPLAY_MIN_PRECISION: i32 = -64;

proof fn lemma_signs_give_acceptance(residuals: Seq<Real>, signs: Seq<SignFact>, accepted: bool)
    requires
        signs.len() == residuals.len(),
        accepted <==> forall|i: int| 0 <= i < signs.len() ==> #[trigger] signs[i] == SignFact::Zero,
        forall|i: int|
            0 <= i < signs.len() && #[trigger] real_rational_class(residuals[i]) ==> real_structural_sign(residuals[i])
                == Some(signs[i]),
    ensures
        acceptance_consistent(residuals, accepted),
{
    if all_rational(residuals) {
        if all_structurally_zero(residuals) {
            assert forall|i: int| 0 <= i < signs.len() implies #[trigger] signs[i] == SignFact::Zero by {
                assert(real_rational_class(residuals[i]));
                assert(real_structural_sign(residuals[i]) == Some(SignFact::Zero));
            }
        }
        if accepted {
            assert forall|i: int| 0 <= i < residuals.len() implies #[trigger] real_structural_sign(residuals[i]) == Some(SignFact::Zero) by {
                assert(real_rational_class(residuals[i]));
                assert(signs[i] == SignFact::Zero);
            }
        }
    }
    if accepted {
        assert forall|i: int|
            0 <= i < residuals.len() && #[trigger] real_rational_class(residuals[i]) implies real_structural_sign(residuals[i])
                == Some(SignFact::Zero) by {
            assert(signs[i] == SignFact::Zero);
        }
    }
}

impl LinearMnaSystem {
    /// Replays a candidate solution through exact residuals.
    pub fn replay_candidate(&self, candidate: &[Real]) -> (result: CircuitResult<ResidualReplayReport>)
        ensures
            (result == Err::<ResidualReplayReport, CircuitError>(CircuitError::CandidateLengthMismatch)) <==> (candidate@.len()
                != self.unknowns@.len() || !replay_shape_ok(matrix_view(self.matrix@), self.rhs@, candidate@)),
            result == Err::<ResidualReplayReport, CircuitError>(CircuitError::UnknownResidual) ==> !all_rational(
                residual_vector(matrix_view(self.matrix@), self.rhs@, candidate@),
            ),
            result is Ok || result == Err::<ResidualReplayReport, CircuitError>(CircuitError::CandidateLengthMismatch) || result
                == Err::<ResidualReplayReport, CircuitError>(CircuitError::UnknownResidual),
            result matches Ok(found) ==> {
                &&& found.residuals@ == residual_vector(matrix_view(self.matrix@), self.rhs@, candidate@)
                &&& acceptance_consistent(found.residuals@, found.accepted)
            },
            system_rational(*self) && all_rational(candidate@) ==> result != Err::<ResidualReplayReport, CircuitError>(
                CircuitError::UnknownResidual,
            ) && (result matches Ok(found) ==> all_rational(found.residuals@)),
    {
        if candidate.len() != self.unknowns.len() {
            return Err(CircuitError::CandidateLengthMismatch);
        }
        match replay_dense(&self.matrix, &self.rhs, candidate, REPLAY_MIN_PRECISION) {
            Ok((residuals, signs, accepted)) => {
                proof {
                    lemma_signs_give_acceptance(residuals@, signs@, accepted);
                }
                Ok(ResidualReplayReport { residuals, accepted })
            },
            Err(ReplayFailure::DimensionMismatch) => Err(CircuitError::CandidateLengthMismatch),
            Err(ReplayFailure::UnknownResidual) => Err(CircuitError::UnknownResidual),
        }
    }
}

/// The system's matrix is `n x n` and its right-hand side has `n` entries,
/// where `n` is the number of unknowns.
pub open spec fn system_is_square(system: LinearMnaSystem) -> bool {
    &&& is_square(matrix_view(system.matrix@), system.unknowns@.len())
    &&& system.rhs@.len() == system.unknowns@.len()
}

fn swap_rows(matrix: &mut Vec<Vec<Real>>, first: usize, second: usize, Ghost(dimension): Ghost<nat>)
    requires
        is_square(matrix_view(old(matrix)@), dimension),
        first < second < dimension,
    ensures
        is_square(matrix_view(final(matrix)@), dimension),
        final(matrix)@ == old(matrix)@.update(first as int, old(matrix)@[second as int]).update(
            second as int,
            old(matrix)@[first as int],
        ),
{
    let ghost before = matrix@;
    let lower = matrix.remove(second);
    let upper = matrix.remove(first);
    matrix.insert(first, lower);
    matrix.insert(second, upper);
    proof {
        assert(matrix@ =~= before.update(first as int, before[second as int]).update(second as int, before[first as int]));
        assert forall|i: int| 0 <= i < dimension implies #[trigger] matrix_view(matrix@)[i].len() == dimension by {
            assert(matrix_view(matrix@)[i] == matrix@[i]@);
            assert(matrix_view(before)[i] == before[i]@);
            assert(matrix_view(before)[first as int] == before[first as int]@);
            assert(matrix_view(before)[second as int] == before[second as int]@);
        }
    }
}

fn swap_entries(values: &mut Vec<Real>, first: usize, second: usize)
    requires
        first < second < old(values)@.len(),
    ensures
        final(values)@.len() == old(values)@.len(),
        final(values)@ == old(values)@.update(first as int, old(values)@[second as int]).update(
            second as int,
            old(values)@[first as int],
        ),
{
    let ghost before = values@;
    let lower = values.remove(second);
    let upper = values.remove(first);
    values.insert(first, lower);
    values.insert(second, upper);
    proof {
        assert(values@ =~= before.update(first as int, before[second as int]).update(second as int, before[first as int]));
    }
}

fn set_entry(matrix: &mut Vec<Vec<Real>>, row: usize, column: usize, value: Real, Ghost(dimension): Ghost<nat>)
    requires
        is_square(matrix_view(old(matrix)@), dimension),
        row < dimension,
        column < dimension,
    ensures
        is_square(matrix_view(final(matrix)@), dimension),
        matrix_view(final(matrix)@) == matrix_view(old(matrix)@).update(
            row as int,
            matrix_view(old(matrix)@)[row as int].update(column as int, value),
        ),
{
    proof {
        assert(matrix_view(matrix@)[row as int] == matrix@[row as int]@);
    }
    let mut taken = matrix.remove(row);
    taken.set(column, value);
    matrix.insert(row, taken);
    proof {
        assert forall|i: int| 0 <= i < dimension implies #[trigger] matrix_view(matrix@)[i].len() == dimension by {
            assert(matrix_view(matrix@)[i] == matrix@[i]@);
            if i != row {
                assert(matrix@[i] == old(matrix)@[i]);
                assert(matrix_view(old(matrix)@)[i] == old(matrix)@[i]@);
            }
        }
        assert(matrix_view(matrix@) =~= matrix_view(old(matrix)@).update(
            row as int,
            matrix_view(old(matrix)@)[row as int].update(column as int, value),
        ));
    }
}

/// Index of the first structurally nonzero fact among the first `count`.
pub open spec fn first_nonzero(facts: Seq<ZeroFact>, count: int) -> Option<int>
    decreases count,
{
    if count <= 0 {
        None
    } else {
        match first_nonzero(facts, count - 1) {
            Some(k) => Some(k),
            None => if facts[count - 1] == ZeroFact::NonZero {
                Some(count - 1)
            } else {
                None
            },
        }
    }
}

/// Pivot decision for one column from the zero facts of its candidate
/// entries, in row order: the first structurally nonzero entry is the pivot;
/// with none, an undecided entry makes the pivot indeterminate, and otherwise
/// the remaining column is singular.
pub open spec fn pivot_choice(facts: Seq<ZeroFact>) -> Result<int, CircuitError> {
    match first_nonzero(facts, facts.len() as int) {
        Some(k) => Ok(k),
        None => if exists|k: int| 0 <= k < facts.len() && #[trigger] facts[k] == ZeroFact::Unknown {
            Err(CircuitError::IndeterminateLinearPivot)
        } else {
            Err(CircuitError::SingularLinearSystem)
        },
    }
}

/// The errors an exact solve can end in.
pub open spec fn solve_failure(error: CircuitError) -> bool {
    ||| error == CircuitError::CandidateLengthMismatch
    ||| error == CircuitError::SingularLinearSystem
    ||| error == CircuitError::IndeterminateLinearPivot
    ||| error == CircuitError::LinearSolveArithmetic
    ||| error == CircuitError::UnknownResidual
}

proof fn lemma_first_nonzero_none(facts: Seq<ZeroFact>, count: int)
    requires
        0 <= count <= facts.len(),
        forall|k: int| 0 <= k < count ==> #[trigger] facts[k] != ZeroFact::NonZero,
    ensures
        first_nonzero(facts, count) is None,
    decreases count,
{
    if count > 0 {
        lemma_first_nonzero_none(facts, count - 1);
    }
}

proof fn lemma_first_nonzero_stable_at(facts: Seq<ZeroFact>, n: int)
    requires
        0 <= n < facts.len(),
        facts[n] == ZeroFact::NonZero,
        first_nonzero(facts, n) is None,
    ensures
        first_nonzero(facts, facts.len() as int) == Some(n),
{
    assert(first_nonzero(facts, n + 1) == Some(n));
    lemma_first_nonzero_stable(facts, n + 1, facts.len() as int);
}

proof fn lemma_swap_keeps_rows(before: Seq<Vec<Real>>, after: Seq<Vec<Real>>, first: int, second: int)
    requires
        0 <= first < before.len(),
        0 <= second < before.len(),
        after == before.update(first, before[second]).update(second, before[first]),
    ensures
        rows_rational(matrix_view(before)) ==> rows_rational(matrix_view(after)),
        matrix_view(after)[first] == matrix_view(before)[second],
{
    assert(matrix_view(after)[first] == after[first]@);
    assert(matrix_view(before)[second] == before[second]@);
    if rows_rational(matrix_view(before)) {
        assert forall|i: int, j: int|
            0 <= i < matrix_view(after).len() && 0 <= j < matrix_view(after)[i].len() implies #[trigger] real_rational_class(
            matrix_view(after)[i][j],
        ) by {
            let source = if i == second {
                first
            } else if i == first {
                second
            } else {
                i
            };
            assert(matrix_view(after)[i] == after[i]@);
            assert(matrix_view(before)[source] == before[source]@);
            assert(after[i] == before[source]);
            assert(real_rational_class(matrix_view(before)[source][j]));
        }
    }
}

proof fn lemma_update_keeps_rows(before: Seq<Seq<Real>>, row: int, column: int, value: Real)
    requires
        rows_rational(before),
        0 <= row < before.len(),
        0 <= column < before[row].len(),
        real_rational_class(value),
    ensures
        rows_rational(before.update(row, before[row].update(column, value))),
{
    let after = before.update(row, before[row].update(column, value));
    assert forall|i: int, j: int| 0 <= i < after.len() && 0 <= j < after[i].len() implies #[trigger] real_rational_class(after[i][j]) by {
        if i == row && j == column {
        } else {
            assert(after[i][j] == before[i][j]);
        }
    }
}

/// Chooses the pivot offset of one column from the zero facts of its
/// candidate entries (see `pivot_choice`).
pub fn choose_pivot(facts: &Vec<ZeroFact>) -> (result: Result<usize, CircuitError>)
    ensures
        result matches Ok(k) ==> pivot_choice(facts@) == Ok::<int, CircuitError>(k as int) && k < facts@.len(),
        result matches Err(error) ==> pivot_choice(facts@) == Err::<int, CircuitError>(error),
{
    let mut i: usize = 0;
    let mut unknown = false;
    while i < facts.len()
        invariant
            i <= facts@.len(),
            first_nonzero(facts@, i as int) is None,
            unknown <==> exists|k: int| 0 <= k < i && #[trigger] facts@[k] == ZeroFact::Unknown,
        decreases facts@.len() - i,
    {
        if facts[i] == ZeroFact::NonZero {
            proof {
                assert(first_nonzero(facts@, i + 1) == Some(i as int));
                lemma_first_nonzero_stable(facts@, i + 1, facts@.len() as int);
            }
            return Ok(i);
        }
        if facts[i] == ZeroFact::Unknown {
            unknown = true;
        }
        i = i + 1;
    }
    if unknown {
        Err(CircuitError::IndeterminateLinearPivot)
    } else {
        Err(CircuitError::SingularLinearSystem)
    }
}

proof fn lemma_first_nonzero_stable(facts: Seq<ZeroFact>, count: int, later: int)
    requires
        0 <= count <= later,
        first_nonzero(facts, count) is Some,
    ensures
        first_nonzero(facts, later) == first_nonzero(facts, count),
    decreases later - count,
{
    if later > count {
        lemma_first_nonzero_stable(facts, count, later - 1);
    }
}

// ---------------------------------------------------------------------------
// Gauss-Jordan elimination over hyperreal's named operations.
// ---------------------------------------------------------------------------

/// `a / b` as hyperreal computes it (the dividend itself where hyperreal
/// reports a problem, which a certified nonzero divisor never causes).
pub open spec fn quotient_of(a: Real, b: Real) -> Real {
    match real_quotient(a, b) {
        Some(q) => q,
        None => a,
    }
}

/// A sequence with the entries at `a` and `b` exchanged.
pub open spec fn exchanged<A>(s: Seq<A>, a: int, b: int) -> Seq<A> {
    if a == b {
        s
    } else {
        s.update(a, s[b]).update(b, s[a])
    }
}

/// The pivot row: entries from `column` on divided by `divisor`.
pub open spec fn scaled_row(row: Seq<Real>, column: int, divisor: Real) -> Seq<Real> {
    Seq::new(row.len(), |j: int| if j >= column { quotient_of(row[j], divisor) } else { row[j] })
}

/// A row with its `column` entry eliminated against the pivot row: kept as
/// is when that entry is structurally zero, else reduced from `column` on.
pub open spec fn eliminated_row(row: Seq<Real>, pivot_row: Seq<Real>, column: int) -> Seq<Real> {
    if real_zero_status(row[column]) == ZeroFact::Zero {
        row
    } else {
        Seq::new(
            row.len(),
            |j: int| if j >= column { real_difference(row[j], real_product(row[column], pivot_row[j])) } else { row[j] },
        )
    }
}

/// A right-hand side reduced like its row (`factor` is the row's `column` entry).
pub open spec fn eliminated_rhs(value: Real, factor: Real, pivot_rhs: Real) -> Real {
    if real_zero_status(factor) == ZeroFact::Zero {
        value
    } else {
        real_difference(value, real_product(factor, pivot_rhs))
    }
}

/// Zero facts of the pivot candidates of `column`, in row order.
pub open spec fn column_facts(m: Seq<Seq<Real>>, column: int) -> Seq<ZeroFact> {
    Seq::new((m.len() - column) as nat, |k: int| real_zero_status(m[column + k][column]))
}

/// One elimination step on `column`: the first structurally nonzero
/// candidate is exchanged into place and scaled to one, and every other row
/// is reduced; `None` when the column has no such candidate.
pub open spec fn elimination_step(m: Seq<Seq<Real>>, b: Seq<Real>, column: int) -> Option<(Seq<Seq<Real>>, Seq<Real>)> {
    match first_nonzero(column_facts(m, column), m.len() - column) {
        None => None,
        Some(k) => {
            let m1 = exchanged(m, column, column + k);
            let b1 = exchanged(b, column, column + k);
            let divisor = m1[column][column];
            let pivot_row = scaled_row(m1[column], column, divisor);
            let pivot_rhs = quotient_of(b1[column], divisor);
            Some(
                (
                    Seq::new(m.len(), |i: int| if i == column { pivot_row } else { eliminated_row(m1[i], pivot_row, column) }),
                    Seq::new(
                        b.len(),
                        |i: int| if i == column { pivot_rhs } else { eliminated_rhs(b1[i], m1[i][column], pivot_rhs) },
                    ),
                ),
            )
        },
    }
}

proof fn lemma_first_nonzero_found(facts: Seq<ZeroFact>, count: int)
    requires
        0 <= count <= facts.len(),
    ensures
        first_nonzero(facts, count) matches Some(k) ==> 0 <= k < count && facts[k] == ZeroFact::NonZero && forall|i: int|
            0 <= i < k ==> #[trigger] facts[i] != ZeroFact::NonZero,
        first_nonzero(facts, count) is None ==> forall|i: int| 0 <= i < count ==> #[trigger] facts[i] != ZeroFact::NonZero,
    decreases count,
{
    if count > 0 {
        lemma_first_nonzero_found(facts, count - 1);
    }
}

/// The pivot search of an elimination step looks at every row at or below
/// the diagonal: the step fails exactly when none of those rows has a
/// structurally nonzero entry in the column, and otherwise it brings the
/// first such row into pivot position, leaving above it only rows whose entry
/// is not structurally nonzero, and scales the pivot entry by itself.
pub proof fn pivot_search_covers_lower_rows(m: Seq<Seq<Real>>, b: Seq<Real>, column: int)
    requires
        0 <= column < m.len(),
        forall|i: int| 0 <= i < m.len() ==> #[trigger] m[i].len() == m.len(),
    ensures
        elimination_step(m, b, column) is None <==> forall|r: int|
            column <= r < m.len() ==> real_zero_status(#[trigger] m[r][column]) != ZeroFact::NonZero,
        elimination_step(m, b, column) matches Some(state) ==> exists|p: int|
            column <= p < m.len() && real_zero_status(#[trigger] m[p][column]) == ZeroFact::NonZero && (forall|r: int|
                column <= r < p ==> real_zero_status(#[trigger] m[r][column]) != ZeroFact::NonZero) && (
            state.0[column][column] == quotient_of(m[p][column], m[p][column])),
{
    let facts = column_facts(m, column);
    let count = m.len() - column;
    lemma_first_nonzero_found(facts, count);
    match first_nonzero(facts, count) {
        None => {
            assert forall|r: int| column <= r < m.len() implies real_zero_status(#[trigger] m[r][column]) != ZeroFact::NonZero by {
                assert(facts[r - column] == real_zero_status(m[r][column]));
            }
        },
        Some(k) => {
            let p = column + k;
            assert(facts[k] == real_zero_status(m[p][column]));
            assert forall|r: int| column <= r < p implies real_zero_status(#[trigger] m[r][column]) != ZeroFact::NonZero by {
                assert(facts[r - column] == real_zero_status(m[r][column]));
            }
            let m1 = exchanged(m, column, p);
            assert(m1[column] == m[p]);
            assert(!(forall|r: int| column <= r < m.len() ==> real_zero_status(#[trigger] m[r][column]) != ZeroFact::NonZero));
        },
    }
}

/// Gauss-Jordan elimination of the first `columns` columns; `None` when some
/// column has no structurally nonzero pivot.
pub open spec fn gauss_jordan(m: Seq<Seq<Real>>, b: Seq<Real>, columns: int) -> Option<(Seq<Seq<Real>>, Seq<Real>)>
    decreases columns,
{
    if columns <= 0 {
        Some((m, b))
    } else {
        match gauss_jordan(m, b, columns - 1) {
            None => None,
            Some(state) => elimination_step(state.0, state.1, columns - 1),
        }
    }
}

proof fn lemma_elimination_keeps_shape(m: Seq<Seq<Real>>, b: Seq<Real>, columns: int)
    requires
        0 <= columns <= m.len(),
        forall|i: int| 0 <= i < m.len() ==> #[trigger] m[i].len() == m.len(),
    ensures
        gauss_jordan(m, b, columns) matches Some(state) ==> state.0.len() == m.len() && forall|i: int|
            0 <= i < m.len() ==> #[trigger] state.0[i].len() == m.len(),
    decreases columns,
{
    if columns > 0 {
        lemma_elimination_keeps_shape(m, b, columns - 1);
        if let Some(state) = gauss_jordan(m, b, columns - 1) {
            let column = columns - 1;
            let sm = state.0;
            if let Some(next) = elimination_step(sm, state.1, column) {
                let k = first_nonzero(column_facts(sm, column), sm.len() - column)->0;
                lemma_first_nonzero_found(column_facts(sm, column), sm.len() - column);
                let m1 = exchanged(sm, column, column + k);
                assert forall|i: int| 0 <= i < m.len() implies #[trigger] next.0[i].len() == m.len() by {
                    assert(m1[i].len() == m.len());
                    assert(m1[column].len() == m.len());
                }
            }
        }
    }
}

/// Elimination reaches column `c` and finds no row at or below the diagonal
/// with a structurally nonzero entry in it.
pub open spec fn empty_column_at(m: Seq<Seq<Real>>, b: Seq<Real>, c: int) -> bool {
    match gauss_jordan(m, b, c) {
        Some(state) => forall|r: int| c <= r < m.len() ==> real_zero_status(#[trigger] state.0[r][c]) != ZeroFact::NonZero,
        None => false,
    }
}

/// Elimination reports a singular system only at a genuinely empty column:
/// Gauss-Jordan elimination of a square matrix fails exactly when, at some
/// column it reaches, no row at or below the diagonal holds a structurally
/// nonzero entry in that column.
pub proof fn elimination_fails_only_at_empty_column(m: Seq<Seq<Real>>, b: Seq<Real>, columns: int)
    requires
        0 <= columns <= m.len(),
        forall|i: int| 0 <= i < m.len() ==> #[trigger] m[i].len() == m.len(),
    ensures
        gauss_jordan(m, b, columns) is None <==> exists|c: int| 0 <= c < columns && #[trigger] empty_column_at(m, b, c),
    decreases columns,
{
    if columns > 0 {
        elimination_fails_only_at_empty_column(m, b, columns - 1);
        lemma_elimination_keeps_shape(m, b, columns - 1);
        match gauss_jordan(m, b, columns - 1) {
            None => {
                let c = choose|c: int| 0 <= c < columns - 1 && #[trigger] empty_column_at(m, b, c);
                assert(0 <= c < columns);
            },
            Some(state) => {
                pivot_search_covers_lower_rows(state.0, state.1, columns - 1);
                if exists|c: int| 0 <= c < columns && #[trigger] empty_column_at(m, b, c) {
                    let c = choose|c: int| 0 <= c < columns && #[trigger] empty_column_at(m, b, c);
                    if c < columns - 1 {
                        lemma_elimination_keeps_shape(m, b, c);
                        let st = gauss_jordan(m, b, c)->0;
                        pivot_search_covers_lower_rows(st.0, st.1, c);
                        assert(gauss_jordan(m, b, c + 1) is None);
                        lemma_gauss_jordan_stuck(m, b, c + 1, columns - 1);
                    }
                } else {
                    if gauss_jordan(m, b, columns) is None {
                        assert(empty_column_at(m, b, columns - 1));
                    }
                }
            },
        }
    }
}

proof fn lemma_gauss_jordan_stuck(m: Seq<Seq<Real>>, b: Seq<Real>, columns: int, later: int)
    requires
        0 <= columns <= later,
        gauss_jordan(m, b, columns) is None,
    ensures
        gauss_jordan(m, b, later) is None,
    decreases later - columns,
{
    if later > columns {
        lemma_gauss_jordan_stuck(m, b, columns, later - 1);
    }
}

proof fn lemma_exchanged_view(before: Seq<Vec<Real>>, after: Seq<Vec<Real>>, first: int, second: int)
    requires
        0 <= first < before.len(),
        0 <= second < before.len(),
        first != second,
        after == before.update(first, before[second]).update(second, before[first]),
    ensures
        matrix_view(after) == exchanged(matrix_view(before), first, second),
{
    assert forall|i: int| 0 <= i < after.len() implies #[trigger] matrix_view(after)[i] == exchanged(
        matrix_view(before),
        first,
        second,
    )[i] by {
        assert(matrix_view(after)[i] == after[i]@);
        assert(matrix_view(before)[first] == before[first]@);
        assert(matrix_view(before)[second] == before[second]@);
        assert(matrix_view(before)[i] == before[i]@);
    }
    assert(matrix_view(after) =~= exchanged(matrix_view(before), first, second));
}

impl LinearMnaSystem {
    /// Solves a square linear MNA system by exact-aware Gauss-Jordan elimination.
    ///
    /// A pivot must be certified nonzero; an unknown zero predicate is reported
    /// rather than resolved by a floating tolerance. The result is replayed
    /// through the original equations before it is returned.
    pub fn solve_exact(&self) -> (result: CircuitResult<LinearSolveReport>)
        ensures
            !system_is_square(*self) ==> result == Err::<LinearSolveReport, CircuitError>(CircuitError::CandidateLengthMismatch),
            system_is_square(*self) ==> result != Err::<LinearSolveReport, CircuitError>(CircuitError::CandidateLengthMismatch),
            system_is_square(*self) && self.unknowns@.len() == 0 ==> (result matches Ok(report) && report.candidate@.len() == 0),
            result matches Err(error) ==> solve_failure(error),
            system_rational(*self) ==> result != Err::<LinearSolveReport, CircuitError>(CircuitError::IndeterminateLinearPivot)
                && result != Err::<LinearSolveReport, CircuitError>(CircuitError::LinearSolveArithmetic),
            system_rational(*self) ==> (result matches Ok(report) ==> all_structurally_zero(report.replay.residuals@)),
            system_rational(*self) && system_is_square(*self) ==> match gauss_jordan(
                matrix_view(self.matrix@),
                self.rhs@,
                self.unknowns@.len() as int,
            ) {
                None => result == Err::<LinearSolveReport, CircuitError>(CircuitError::SingularLinearSystem),
                Some(state) => if all_structurally_zero(residual_vector(matrix_view(self.matrix@), self.rhs@, state.1)) {
                    result matches Ok(report) && report.candidate@ == state.1
                } else {
                    result == Err::<LinearSolveReport, CircuitError>(CircuitError::UnknownResidual)
                },
            },
            result matches Ok(report) ==> {
                &&& report.candidate@.len() == self.unknowns@.len()
                &&& report.replay.accepted
                &&& report.replay.residuals@ == residual_vector(matrix_view(self.matrix@), self.rhs@, report.candidate@)
                &&& acceptance_consistent(report.replay.residuals@, true)
            },
    {
        let dimension = self.unknowns.len();
        let ghost dim = dimension as nat;
        if self.matrix.len() != dimension || self.rhs.len() != dimension {
            return Err(CircuitError::CandidateLengthMismatch);
        }
        let mut r: usize = 0;
        while r < dimension
            invariant
                r <= dimension,
                dimension == self.matrix@.len(),
                forall|i: int| 0 <= i < r ==> #[trigger] self.matrix@[i]@.len() == dimension,
            decreases dimension - r,
        {
            if self.matrix[r].len() != dimension {
                proof {
                    assert(matrix_view(self.matrix@)[r as int] == self.matrix@[r as int]@);
                }
                return Err(CircuitError::CandidateLengthMismatch);
            }
            r = r + 1;
        }
        proof {
            assert forall|i: int| 0 <= i < dim implies #[trigger] matrix_view(self.matrix@)[i].len() == dim by {
                assert(matrix_view(self.matrix@)[i] == self.matrix@[i]@);
            }
        }
        let mut matrix: Vec<Vec<Real>> = Vec::new();
        let mut copy_row: usize = 0;
        while copy_row < dimension
            invariant
                copy_row <= dimension,
                dimension == self.matrix@.len(),
                dimension == self.unknowns@.len(),
                is_square(matrix_view(self.matrix@), dim),
                matrix@.len() == copy_row,
                forall|i: int| 0 <= i < copy_row ==> #[trigger] matrix@[i]@ == self.matrix@[i]@,
            decreases dimension - copy_row,
        {
            let mut row: Vec<Real> = Vec::new();
            let mut c: usize = 0;
            proof {
                assert(matrix_view(self.matrix@)[copy_row as int] == self.matrix@[copy_row as int]@);
            }
            while c < dimension
                invariant
                    c <= dimension,
                    copy_row < dimension,
                    dimension == self.matrix@.len(),
                    self.matrix@[copy_row as int]@.len() == dimension,
                    row@.len() == c,
                    forall|j: int| 0 <= j < c ==> #[trigger] row@[j] == self.matrix@[copy_row as int]@[j],
                decreases dimension - c,
            {
                row.push(self.matrix[copy_row][c].clone());
                c = c + 1;
            }
            proof {
                assert(row@ =~= self.matrix@[copy_row as int]@);
            }
            matrix.push(row);
            copy_row = copy_row + 1;
        }
        proof {
            assert forall|i: int| 0 <= i < dim implies #[trigger] matrix_view(matrix@)[i] == matrix_view(self.matrix@)[i] by {
                assert(matrix_view(matrix@)[i] == matrix@[i]@);
                assert(matrix_view(self.matrix@)[i] == self.matrix@[i]@);
            }
            assert(matrix_view(matrix@) =~= matrix_view(self.matrix@));
        }
        let mut rhs: Vec<Real> = Vec::new();
        let mut copy_entry: usize = 0;
        while copy_entry < dimension
            invariant
                copy_entry <= dimension,
                self.rhs@.len() == dimension,
                rhs@.len() == copy_entry,
                forall|j: int| 0 <= j < copy_entry ==> #[trigger] rhs@[j] == self.rhs@[j],
            decreases dimension - copy_entry,
        {
            rhs.push(self.rhs[copy_entry].clone());
            copy_entry = copy_entry + 1;
        }
        proof {
            assert(rhs@ =~= self.rhs@);
        }
        let ghost m0 = matrix_view(self.matrix@);
        let ghost b0 = self.rhs@;
        let mut column: usize = 0;
        while column < dimension
            invariant
                system_is_square(*self),
                column <= dimension,
                is_square(matrix_view(matrix@), dim),
                rhs@.len() == dim,
                dim == dimension,
                dimension == self.unknowns@.len(),
                m0 == matrix_view(self.matrix@),
                b0 == self.rhs@,
                system_rational(*self) ==> rows_rational(matrix_view(matrix@)) && all_rational(rhs@),
                system_rational(*self) ==> gauss_jordan(m0, b0, column as int) == Some((matrix_view(matrix@), rhs@)),
            decreases dimension - column,
        {
            let ghost mv_start = matrix_view(matrix@);
            let ghost rhs_start = rhs@;
            let mut facts: Vec<ZeroFact> = Vec::new();
            let mut scan: usize = column;
            let mut found = false;
            while scan < dimension && !found
                invariant
                    system_is_square(*self),
                    column <= scan <= dimension,
                    column < dimension,
                    is_square(matrix_view(matrix@), dim),
                    dim == dimension,
                    matrix_view(matrix@) == mv_start,
                    facts@.len() == scan - column + (if found { 1int } else { 0int }),
                    found ==> scan < dimension,
                    system_rational(*self) ==> rows_rational(matrix_view(matrix@)),
                    forall|k: int| 0 <= k < scan - column ==> #[trigger] facts@[k] != ZeroFact::NonZero,
                    found ==> facts@[scan - column] == ZeroFact::NonZero,
                    system_rational(*self) ==> forall|k: int| 0 <= k < facts@.len() ==> #[trigger] facts@[k] != ZeroFact::Unknown,
                    system_rational(*self) ==> forall|k: int|
                        0 <= k < facts@.len() ==> #[trigger] facts@[k] == column_facts(mv_start, column as int)[k],
                    found && system_rational(*self) ==> real_zero_status(matrix_view(matrix@)[scan as int][column as int])
                        == ZeroFact::NonZero,
                decreases dimension - scan + (if found { 0int } else { 1int }),
            {
                proof {
                    assert(matrix_view(matrix@)[scan as int] == matrix@[scan as int]@);
                    if system_rational(*self) {
                        assert(real_rational_class(matrix_view(matrix@)[scan as int][column as int]));
                    }
                }
                let status = real_zero_knowledge(&matrix[scan][column]);
                facts.push(status);
                proof {
                    if system_rational(*self) {
                        assert(column_facts(mv_start, column as int)[scan - column] == real_zero_status(
                            mv_start[scan as int][column as int],
                        ));
                    }
                }
                if status == ZeroFact::NonZero {
                    found = true;
                } else {
                    scan = scan + 1;
                }
            }
            let ghost cf = column_facts(mv_start, column as int);
            let pivot: usize = match choose_pivot(&facts) {
                Ok(offset) => {
                    proof {
                        if !found {
                            lemma_first_nonzero_none(facts@, facts@.len() as int);
                        } else {
                            lemma_first_nonzero_none(facts@, scan - column);
                            lemma_first_nonzero_stable_at(facts@, scan - column);
                            if system_rational(*self) {
                                assert forall|k: int| 0 <= k < scan - column implies #[trigger] cf[k] != ZeroFact::NonZero by {
                                    assert(facts@[k] == cf[k]);
                                }
                                assert(facts@[scan - column] == cf[scan - column]);
                                lemma_first_nonzero_none(cf, scan - column);
                                lemma_first_nonzero_stable_at(cf, scan - column);
                            }
                        }
                    }
                    column + offset
                },
                Err(error) => {
                    proof {
                        if found {
                            lemma_first_nonzero_none(facts@, scan - column);
                            lemma_first_nonzero_stable_at(facts@, scan - column);
                        }
                        if system_rational(*self) {
                            assert(facts@.len() == dimension - column);
                            assert forall|k: int| 0 <= k < dimension - column implies #[trigger] cf[k] != ZeroFact::NonZero by {
                                assert(facts@[k] == cf[k]);
                            }
                            lemma_first_nonzero_none(cf, dimension - column);
                            assert(elimination_step(mv_start, rhs_start, column as int) is None);
                            assert(gauss_jordan(m0, b0, column + 1) is None);
                            lemma_gauss_jordan_stuck(m0, b0, column + 1, dimension as int);
                        }
                    }
                    return Err(error);
                },
            };
            proof {
                assert(pivot == scan);
            }
            let ghost m1 = exchanged(mv_start, column as int, pivot as int);
            let ghost b1 = exchanged(rhs_start, column as int, pivot as int);
            let ghost pivot_entry = matrix_view(matrix@)[pivot as int][column as int];
            if pivot != column {
                let ghost before = matrix@;
                let ghost rhs_before = rhs@;
                swap_rows(&mut matrix, column, pivot, Ghost(dim));
                swap_entries(&mut rhs, column, pivot);
                proof {
                    lemma_swap_keeps_rows(before, matrix@, column as int, pivot as int);
                    lemma_exchanged_view(before, matrix@, column as int, pivot as int);
                    if system_rational(*self) {
                        assert forall|j: int| 0 <= j < rhs@.len() implies #[trigger] real_rational_class(rhs@[j]) by {
                            if j == column as int {
                                assert(rhs@[j] == rhs_before[pivot as int]);
                            } else if j == pivot as int {
                                assert(rhs@[j] == rhs_before[column as int]);
                            } else {
                                assert(rhs@[j] == rhs_before[j]);
                            }
                        }
                    }
                }
            }
            proof {
                assert(matrix_view(matrix@) == m1);
                assert(rhs@ == b1);
                assert(matrix_view(matrix@)[column as int] == matrix@[column as int]@);
                assert(matrix_view(matrix@)[column as int][column as int] == pivot_entry);
            }
            let divisor = matrix[column][column].clone();
            proof {
                assert(divisor == m1[column as int][column as int]);
                assert(m1[column as int].len() == dim);
                assert(Seq::new(dim, |j: int| if column <= j < column { quotient_of(m1[column as int][j], divisor) } else { m1[column as int][j] })
                    =~= m1[column as int]);
                assert(m1.update(
                    column as int,
                    Seq::new(dim, |j: int| if column <= j < column { quotient_of(m1[column as int][j], divisor) } else { m1[column as int][j] }),
                ) =~= m1);
            }
            let mut c: usize = column;
            while c < dimension
                invariant
                    system_is_square(*self),
                    column <= c <= dimension,
                    column < dimension,
                    is_square(matrix_view(matrix@), dim),
                    dim == dimension,
                    dimension == self.unknowns@.len(),
                    rhs@ == b1,
                    m1.len() == dim,
                    m1[column as int].len() == dim,
                    matrix_view(matrix@) == m1.update(
                        column as int,
                        Seq::new(dim, |j: int| if column <= j < c { quotient_of(m1[column as int][j], divisor) } else { m1[column as int][j] }),
                    ),
                    system_rational(*self) ==> rows_rational(matrix_view(matrix@)) && real_rational_class(divisor)
                        && real_zero_status(divisor) == ZeroFact::NonZero,
                decreases dimension - c,
            {
                proof {
                    assert(matrix_view(matrix@)[column as int] == matrix@[column as int]@);
                    if system_rational(*self) {
                        assert(real_rational_class(matrix_view(matrix@)[column as int][c as int]));
                    }
                }
                let quotient = match real_div(&matrix[column][c], &divisor) {
                    Ok(q) => q,
                    Err(_) => return Err(CircuitError::LinearSolveArithmetic),
                };
                let ghost before = matrix_view(matrix@);
                set_entry(&mut matrix, column, c, quotient, Ghost(dim));
                proof {
                    if system_rational(*self) {
                        lemma_update_keeps_rows(before, column as int, c as int, quotient);
                    }
                    assert(quotient == quotient_of(m1[column as int][c as int], divisor));
                    assert(matrix_view(matrix@)[column as int] =~= Seq::new(
                        dim,
                        |j: int| if column <= j < c + 1 { quotient_of(m1[column as int][j], divisor) } else { m1[column as int][j] },
                    ));
                    assert(matrix_view(matrix@) =~= m1.update(
                        column as int,
                        Seq::new(
                            dim,
                            |j: int| if column <= j < c + 1 { quotient_of(m1[column as int][j], divisor) } else { m1[column as int][j] },
                        ),
                    ));
                }
                c = c + 1;
            }
            let ghost prow = scaled_row(m1[column as int], column as int, divisor);
            proof {
                assert(matrix_view(matrix@)[column as int] =~= prow);
                assert(matrix_view(matrix@) =~= m1.update(column as int, prow));
                if system_rational(*self) {
                    assert(real_rational_class(rhs@[column as int]));
                }
            }
            let scaled = match real_div(&rhs[column], &divisor) {
                Ok(q) => q,
                Err(_) => return Err(CircuitError::LinearSolveArithmetic),
            };
            let ghost prhs = quotient_of(b1[column as int], divisor);
            let ghost rhs_before = rhs@;
            rhs.set(column, scaled);
            proof {
                assert(scaled == prhs);
                assert(matrix_view(matrix@)[column as int] == matrix@[column as int]@);
                if system_rational(*self) {
                    assert forall|j: int| 0 <= j < rhs@.len() implies #[trigger] real_rational_class(rhs@[j]) by {
                        if j != column as int {
                            assert(rhs@[j] == rhs_before[j]);
                        }
                    }
                }
            }
            let pivot_row = matrix[column].clone();
            let pivot_rhs = rhs[column].clone();
            proof {
                assert(pivot_row@ =~= matrix@[column as int]@);
                assert(pivot_row@ == prow);
                assert(pivot_rhs == prhs);
                if system_rational(*self) {
                    assert forall|j: int| 0 <= j < pivot_row@.len() implies #[trigger] real_rational_class(pivot_row@[j]) by {
                        assert(real_rational_class(matrix_view(matrix@)[column as int][j]));
                    }
                }
                assert(matrix_view(matrix@) =~= Seq::new(
                    dim,
                    |i: int| if i == column { prow } else if i < 0 { eliminated_row(m1[i], prow, column as int) } else { m1[i] },
                ));
                assert(rhs@ =~= Seq::new(
                    dim,
                    |i: int| if i == column { prhs } else if i < 0 { eliminated_rhs(b1[i], m1[i][column as int], prhs) } else { b1[i] },
                ));
            }
            let mut row: usize = 0;
            while row < dimension
                invariant
                    system_is_square(*self),
                    row <= dimension,
                    column < dimension,
                    is_square(matrix_view(matrix@), dim),
                    rhs@.len() == dim,
                    pivot_row@.len() == dim,
                    dim == dimension,
                    dimension == self.unknowns@.len(),
                    m1.len() == dim,
                    b1.len() == dim,
                    forall|i: int| 0 <= i < dim ==> #[trigger] m1[i].len() == dim,
                    pivot_row@ == prow,
                    pivot_rhs == prhs,
                    system_rational(*self) ==> rows_rational(matrix_view(matrix@)) && all_rational(rhs@)
                        && real_rational_class(pivot_rhs) && forall|j: int| 0 <= j < pivot_row@.len() ==> #[trigger] real_rational_class(pivot_row@[j]),
                    system_rational(*self) ==> matrix_view(matrix@) == Seq::new(
                        dim,
                        |i: int| if i == column { prow } else if i < row { eliminated_row(m1[i], prow, column as int) } else { m1[i] },
                    ),
                    system_rational(*self) ==> rhs@ == Seq::new(
                        dim,
                        |i: int| if i == column { prhs } else if i < row { eliminated_rhs(b1[i], m1[i][column as int], prhs) } else { b1[i] },
                    ),
                decreases dimension - row,
            {
                let ghost mv_row = matrix_view(matrix@);
                let ghost rhs_row = rhs@;
                if row != column {
                    proof {
                        assert(matrix_view(matrix@)[row as int] == matrix@[row as int]@);
                        if system_rational(*self) {
                            assert(real_rational_class(matrix_view(matrix@)[row as int][column as int]));
                            assert(mv_row[row as int] == m1[row as int]);
                        }
                    }
                    let factor = matrix[row][column].clone();
                    if real_zero_knowledge(&factor) != ZeroFact::Zero {
                        proof {
                            if system_rational(*self) {
                                assert(m1[row as int].len() == dim);
                                assert(Seq::new(
                                    dim,
                                    |j: int| if column <= j < column { real_difference(m1[row as int][j], real_product(factor, prow[j])) } else { m1[row as int][j] },
                                ) =~= m1[row as int]);
                                assert(mv_row.update(row as int, m1[row as int]) =~= mv_row);
                            }
                        }
                        let mut c: usize = column;
                        while c < dimension
                            invariant
                                column <= c <= dimension,
                                row < dimension,
                                row != column,
                                is_square(matrix_view(matrix@), dim),
                                pivot_row@.len() == dim,
                                dim == dimension,
                                pivot_row@ == prow,
                                system_rational(*self) ==> rows_rational(matrix_view(matrix@)) && real_rational_class(factor)
                                    && forall|j: int| 0 <= j < pivot_row@.len() ==> #[trigger] real_rational_class(pivot_row@[j]),
                                system_rational(*self) ==> mv_row[row as int] == m1[row as int] && factor == m1[row as int][column as int],
                                mv_row.len() == dim,
                                system_rational(*self) ==> matrix_view(matrix@) == mv_row.update(
                                    row as int,
                                    Seq::new(
                                        dim,
                                        |j: int| if column <= j < c { real_difference(m1[row as int][j], real_product(factor, prow[j])) } else { m1[row as int][j] },
                                    ),
                                ),
                            decreases dimension - c,
                        {
                            proof {
                                assert(matrix_view(matrix@)[row as int] == matrix@[row as int]@);
                                if system_rational(*self) {
                                    assert(real_rational_class(matrix_view(matrix@)[row as int][c as int]));
                                    assert(real_rational_class(pivot_row@[c as int]));
                                }
                            }
                            let product = real_mul(&factor, &pivot_row[c]);
                            let updated = real_sub(&matrix[row][c], &product);
                            let ghost before = matrix_view(matrix@);
                            set_entry(&mut matrix, row, c, updated, Ghost(dim));
                            proof {
                                if system_rational(*self) {
                                    lemma_update_keeps_rows(before, row as int, c as int, updated);
                                    assert(updated == real_difference(m1[row as int][c as int], real_product(factor, prow[c as int])));
                                    assert(matrix_view(matrix@)[row as int] =~= Seq::new(
                                        dim,
                                        |j: int| if column <= j < c + 1 { real_difference(m1[row as int][j], real_product(factor, prow[j])) } else { m1[row as int][j] },
                                    ));
                                    assert(matrix_view(matrix@) =~= mv_row.update(
                                        row as int,
                                        Seq::new(
                                            dim,
                                            |j: int| if column <= j < c + 1 { real_difference(m1[row as int][j], real_product(factor, prow[j])) } else { m1[row as int][j] },
                                        ),
                                    ));
                                }
                            }
                            c = c + 1;
                        }
                        proof {
                            if system_rational(*self) {
                                assert(real_rational_class(rhs@[row as int]));
                                assert(real_zero_status(m1[row as int][column as int]) != ZeroFact::Zero);
                                assert(matrix_view(matrix@)[row as int] =~= eliminated_row(m1[row as int], prow, column as int));
                            }
                        }
                        let product = real_mul(&factor, &pivot_rhs);
                        let updated = real_sub(&rhs[row], &product);
                        let ghost rhs_before = rhs@;
                        rhs.set(row, updated);
                        proof {
                            if system_rational(*self) {
                                assert forall|j: int| 0 <= j < rhs@.len() implies #[trigger] real_rational_class(rhs@[j]) by {
                                    if j != row as int {
                                        assert(rhs@[j] == rhs_before[j]);
                                    }
                                }
                                assert(rhs_before[row as int] == b1[row as int]);
                                assert(updated == eliminated_rhs(b1[row as int], m1[row as int][column as int], prhs));
                            }
                        }
                    } else {
                        proof {
                            if system_rational(*self) {
                                assert(real_zero_status(m1[row as int][column as int]) == ZeroFact::Zero);
                                assert(eliminated_row(m1[row as int], prow, column as int) == m1[row as int]);
                            }
                        }
                    }
                }
                proof {
                    if system_rational(*self) {
                        assert(matrix_view(matrix@) =~= Seq::new(
                            dim,
                            |i: int| if i == column { prow } else if i < row + 1 { eliminated_row(m1[i], prow, column as int) } else { m1[i] },
                        ));
                        assert(rhs@ =~= Seq::new(
                            dim,
                            |i: int| if i == column { prhs } else if i < row + 1 { eliminated_rhs(b1[i], m1[i][column as int], prhs) } else { b1[i] },
                        ));
                    }
                }
                row = row + 1;
            }
            proof {
                if system_rational(*self) {
                    let step = elimination_step(mv_start, rhs_start, column as int);
                    assert(first_nonzero(cf, mv_start.len() - column) == Some(pivot - column));
                    assert(step == Some((matrix_view(matrix@), rhs@))) by {
                        assert(matrix_view(matrix@) =~= Seq::new(
                            mv_start.len(),
                            |i: int| if i == column { prow } else { eliminated_row(m1[i], prow, column as int) },
                        ));
                        assert(rhs@ =~= Seq::new(
                            rhs_start.len(),
                            |i: int| if i == column { prhs } else { eliminated_rhs(b1[i], m1[i][column as int], prhs) },
                        ));
                    }
                    assert(gauss_jordan(m0, b0, column + 1) == step);
                }
            }
            column = column + 1;
        }
        let replay = match self.replay_candidate(rhs.as_slice()) {
            Ok(replay) => replay,
            Err(error) => return Err(error),
        };
        if !replay.accepted {
            return Err(CircuitError::UnknownResidual);
        }
        Ok(LinearSolveReport { candidate: rhs, replay })
    }
}


// ---------------------------------------------------------------------------
// Reciprocity of the assembled matrix.
// ---------------------------------------------------------------------------

/// Square matrix equal to its transpose.
pub open spec fn is_symmetric(m: Seq<Seq<Real>>, dimension: nat) -> bool {
    &&& is_square(m, dimension)
    &&& forall|i: int, j: int| 0 <= i < dimension && 0 <= j < dimension ==> #[trigger] m[i][j] == m[j][i]
}

/// A stamp whose coupling is reciprocal (every stamp but the controlled source).
pub open spec fn is_reciprocal_stamp(stamp: LinearStamp) -> bool {
    !(stamp is Vccs)
}

proof fn lemma_diagonal_add_keeps_symmetry(m: Seq<Seq<Real>>, dimension: nat, k: int, v: Real)
    requires
        is_symmetric(m, dimension),
        0 <= k < dimension,
    ensures
        is_symmetric(add_entry(m, k, k, v), dimension),
{
    let r = add_entry(m, k, k, v);
    assert forall|i: int| 0 <= i < dimension implies #[trigger] r[i].len() == dimension by {}
    assert forall|i: int, j: int| 0 <= i < dimension && 0 <= j < dimension implies #[trigger] r[i][j] == r[j][i] by {
        assert(m[i][j] == m[j][i]);
    }
}

proof fn lemma_pair_add_keeps_symmetry(m: Seq<Seq<Real>>, dimension: nat, a: int, b: int, v: Real)
    requires
        is_symmetric(m, dimension),
        0 <= a < dimension,
        0 <= b < dimension,
    ensures
        is_symmetric(add_entry(add_entry(m, a, b, v), b, a, v), dimension),
{
    let m1 = add_entry(m, a, b, v);
    let r = add_entry(m1, b, a, v);
    assert forall|i: int| 0 <= i < dimension implies #[trigger] r[i].len() == dimension by {}
    assert forall|i: int, j: int| 0 <= i < dimension && 0 <= j < dimension implies #[trigger] r[i][j] == r[j][i] by {
        assert(m[i][j] == m[j][i]);
        assert(m[a][b] == m[b][a]);
    }
}

proof fn lemma_pair_sub_keeps_symmetry(m: Seq<Seq<Real>>, dimension: nat, a: int, b: int, v: Real)
    requires
        is_symmetric(m, dimension),
        0 <= a < dimension,
        0 <= b < dimension,
    ensures
        is_symmetric(sub_entry(sub_entry(m, a, b, v), b, a, v), dimension),
{
    let m1 = sub_entry(m, a, b, v);
    let r = sub_entry(m1, b, a, v);
    assert forall|i: int| 0 <= i < dimension implies #[trigger] r[i].len() == dimension by {}
    assert forall|i: int, j: int| 0 <= i < dimension && 0 <= j < dimension implies #[trigger] r[i][j] == r[j][i] by {
        assert(m[i][j] == m[j][i]);
        assert(m[a][b] == m[b][a]);
    }
}

/// Slot in range.
pub open spec fn slot_in(slot: Option<int>, dimension: nat) -> bool {
    match slot {
        Some(i) => 0 <= i < dimension,
        None => true,
    }
}

proof fn lemma_conductance_keeps_symmetry(m: Seq<Seq<Real>>, dimension: nat, pos: Option<int>, neg: Option<int>, g: Real)
    requires
        is_symmetric(m, dimension),
        slot_in(pos, dimension),
        slot_in(neg, dimension),
    ensures
        is_symmetric(conductance_stamped(m, pos, neg, g), dimension),
{
    let m1 = match pos {
        Some(p) => add_entry(m, p, p, g),
        None => m,
    };
    if let Some(p) = pos {
        lemma_diagonal_add_keeps_symmetry(m, dimension, p, g);
    }
    let m2 = match neg {
        Some(n) => add_entry(m1, n, n, g),
        None => m1,
    };
    if let Some(n) = neg {
        lemma_diagonal_add_keeps_symmetry(m1, dimension, n, g);
    }
    if let (Some(p), Some(n)) = (pos, neg) {
        lemma_pair_sub_keeps_symmetry(m2, dimension, p, n, g);
    }
}

proof fn lemma_voltage_keeps_symmetry(m: Seq<Seq<Real>>, dimension: nat, branch: int, pos: Option<int>, neg: Option<int>)
    requires
        is_symmetric(m, dimension),
        0 <= branch < dimension,
        slot_in(pos, dimension),
        slot_in(neg, dimension),
    ensures
        is_symmetric(voltage_matrix_stamped(m, branch, pos, neg), dimension),
{
    let one = real_of_int(1);
    let m1 = match pos {
        Some(p) => add_entry(add_entry(m, p, branch, one), branch, p, one),
        None => m,
    };
    if let Some(p) = pos {
        lemma_pair_add_keeps_symmetry(m, dimension, p, branch, one);
    }
    if let Some(n) = neg {
        lemma_pair_sub_keeps_symmetry(m1, dimension, n, branch, one);
    }
}

proof fn lemma_spec_slot_in(texts: Seq<Seq<char>>, net: Option<NetId>, dimension: nat)
    requires
        texts.len() <= dimension,
    ensures
        spec_slot(texts, net) matches Some(slot) ==> slot_in(slot, dimension),
{
    if let Some(n) = net {
        lemma_first_index_bound(texts, n@);
    }
}

proof fn lemma_assembled_symmetric(texts: Seq<Seq<char>>, stamps: Seq<LinearStamp>, count: int, dimension: nat)
    requires
        0 <= count <= stamps.len(),
        dimension == texts.len() + voltage_branches(stamps).len(),
        forall|k: int| 0 <= k < stamps.len() ==> is_reciprocal_stamp(#[trigger] stamps[k]),
    ensures
        assembled(texts, stamps, count, dimension) matches Some(state) ==> is_symmetric(state.0, dimension)
            && state.1.len() == dimension,
    decreases count,
{
    if count == 0 {
        let z = zero_matrix(dimension);
        assert forall|i: int| 0 <= i < dimension implies #[trigger] z[i].len() == dimension by {}
        assert forall|i: int, j: int| 0 <= i < dimension && 0 <= j < dimension implies #[trigger] z[i][j] == z[j][i] by {
            assert(z[i][j] == real_of_int(0));
            assert(z[j][i] == real_of_int(0));
        }
        assert(is_symmetric(z, dimension));
    } else {
        lemma_assembled_symmetric(texts, stamps, count - 1, dimension);
        if let Some(state) = assembled(texts, stamps, count - 1, dimension) {
            let stamp = stamps[count - 1];
            assert(is_reciprocal_stamp(stamp));
            lemma_voltage_branches_prefix(stamps, count - 1);
            lemma_voltage_branches_monotone(stamps, count);
            let branch = (texts.len() + voltage_branches(stamps.take(count - 1)).len()) as int;
            assert(assembled(texts, stamps, count, dimension) == stamp_applied(texts, stamp, state.0, state.1, branch));
            match stamp {
                LinearStamp::Conductance { pos, neg, conductance, .. } => {
                    lemma_spec_slot_in(texts, pos, dimension);
                    lemma_spec_slot_in(texts, neg, dimension);
                    if let (Some(p), Some(n)) = (spec_slot(texts, pos), spec_slot(texts, neg)) {
                        lemma_conductance_keeps_symmetry(state.0, dimension, p, n, conductance);
                    }
                },
                LinearStamp::CurrentSource { pos, neg, .. } => {
                    lemma_spec_slot_in(texts, pos, dimension);
                    lemma_spec_slot_in(texts, neg, dimension);
                },
                LinearStamp::VoltageSource { pos, neg, voltage, .. } => {
                    lemma_spec_slot_in(texts, pos, dimension);
                    lemma_spec_slot_in(texts, neg, dimension);
                    if let (Some(p), Some(n)) = (spec_slot(texts, pos), spec_slot(texts, neg)) {
                        lemma_voltage_keeps_symmetry(state.0, dimension, branch, p, n);
                    }
                },
                LinearStamp::Vccs { .. } => {},
                LinearStamp::Companion { pos, neg, conductance, history_current, .. } => {
                    lemma_spec_slot_in(texts, pos, dimension);
                    lemma_spec_slot_in(texts, neg, dimension);
                    if let (Some(p), Some(n)) = (spec_slot(texts, pos), spec_slot(texts, neg)) {
                        lemma_conductance_keeps_symmetry(state.0, dimension, p, n, conductance);
                    }
                },
            }
        }
    }
}

/// Reciprocity: when every stamp is a conductance, companion model, current
/// source or voltage source (no controlled source), the assembled MNA matrix
/// equals its transpose.
pub proof fn reciprocal_stamps_give_symmetric_matrix(nets: Seq<NetId>, stamps: Seq<LinearStamp>)
    requires
        forall|k: int| 0 <= k < stamps.len() ==> is_reciprocal_stamp(#[trigger] stamps[k]),
    ensures
        spec_from_stamps(nets, stamps) matches Ok(system) ==> is_symmetric(
            system.1,
            nets.len() + voltage_branches(stamps).len(),
        ),
{
    let dimension = nets.len() + voltage_branches(stamps).len();
    lemma_assembled_symmetric(net_texts(nets), stamps, stamps.len() as int, dimension);
}

} // verus!
