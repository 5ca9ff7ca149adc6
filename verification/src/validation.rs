//! Structural validation of declarative circuit graphs.
//!
//! Every issue is reported in deterministic source order: nets, buses, bus
//! slices, rails, ports, device models, instances, source stimuli, child
//! circuits, module parameters, and finally stamps. The specification below
//! states, item by item, which issues each record contributes.

use vstd::prelude::*;

use crate::exact::{CmpOutcome, SignFact, real_compare, real_order, real_rational_class, real_sign_fact, real_structural_sign, real_sum};
use crate::identity::{BranchId, NetId};
use crate::mna::LinearStamp;
use crate::text::{
    lemma_text_before_asymmetric, lemma_text_before_irreflexive, lemma_text_before_total, lemma_text_before_transitive,
    text_before, text_less,
};
use crate::model::{
    Bus, BusSlice, Circuit, CircuitInstance, CircuitModuleParameter,
    CircuitModuleParameterOverride, CircuitModuleParameterTarget, CircuitPort,
    CircuitValidationIssue, CircuitValidationReport, DeviceModel, DeviceModelKind, DevicePin, Net,
    PinBinding, RailIntent, RailKind, SourceStimulus, SourceWaveform, SourceWaveformPoint,
    SubcircuitInstance, SubcircuitPortBinding, spec_slice_members,
};

verus! {

// ---------------------------------------------------------------------------
// Keyed records.
// ---------------------------------------------------------------------------

/// A record identified, for duplicate and membership checks, by one text key.
pub trait TextKeyed {
    /// The record's key text.
    spec fn key_text(&self) -> Seq<char>;

    /// The record's key.
    fn key(&self) -> (key: &String)
        ensures
            key@ == self.key_text(),
    ;
}

impl TextKeyed for Net {
    open spec fn key_text(&self) -> Seq<char> {
        self.id@
    }

    fn key(&self) -> (key: &String) {
        &self.id.0
    }
}

impl TextKeyed for NetId {
    open spec fn key_text(&self) -> Seq<char> {
        self@
    }

    fn key(&self) -> (key: &String) {
        &self.0
    }
}

impl TextKeyed for Bus {
    open spec fn key_text(&self) -> Seq<char> {
        self.id@
    }

    fn key(&self) -> (key: &String) {
        &self.id.0
    }
}

impl TextKeyed for BusSlice {
    open spec fn key_text(&self) -> Seq<char> {
        self.id@
    }

    fn key(&self) -> (key: &String) {
        &self.id.0
    }
}

impl TextKeyed for RailIntent {
    open spec fn key_text(&self) -> Seq<char> {
        self.net@
    }

    fn key(&self) -> (key: &String) {
        &self.net.0
    }
}

impl TextKeyed for CircuitPort {
    open spec fn key_text(&self) -> Seq<char> {
        self.id@
    }

    fn key(&self) -> (key: &String) {
        &self.id.0
    }
}

impl TextKeyed for DeviceModel {
    open spec fn key_text(&self) -> Seq<char> {
        self.id@
    }

    fn key(&self) -> (key: &String) {
        &self.id.0
    }
}

impl TextKeyed for DevicePin {
    open spec fn key_text(&self) -> Seq<char> {
        self.pin@
    }

    fn key(&self) -> (key: &String) {
        &self.pin.0
    }
}

impl TextKeyed for CircuitInstance {
    open spec fn key_text(&self) -> Seq<char> {
        self.id@
    }

    fn key(&self) -> (key: &String) {
        &self.id.0
    }
}

impl TextKeyed for PinBinding {
    open spec fn key_text(&self) -> Seq<char> {
        self.pin@
    }

    fn key(&self) -> (key: &String) {
        &self.pin.0
    }
}

impl TextKeyed for SourceStimulus {
    open spec fn key_text(&self) -> Seq<char> {
        self.component@
    }

    fn key(&self) -> (key: &String) {
        &self.component.0
    }
}

impl TextKeyed for SubcircuitInstance {
    open spec fn key_text(&self) -> Seq<char> {
        self.id@
    }

    fn key(&self) -> (key: &String) {
        &self.id.0
    }
}

impl TextKeyed for SubcircuitPortBinding {
    open spec fn key_text(&self) -> Seq<char> {
        self.port@
    }

    fn key(&self) -> (key: &String) {
        &self.port.0
    }
}

impl TextKeyed for CircuitModuleParameterOverride {
    open spec fn key_text(&self) -> Seq<char> {
        self.parameter@
    }

    fn key(&self) -> (key: &String) {
        &self.parameter
    }
}

impl TextKeyed for CircuitModuleParameter {
    open spec fn key_text(&self) -> Seq<char> {
        self.name@
    }

    fn key(&self) -> (key: &String) {
        &self.name
    }
}

impl TextKeyed for crate::model::CircuitParameter {
    open spec fn key_text(&self) -> Seq<char> {
        self.name@
    }

    fn key(&self) -> (key: &String) {
        &self.name
    }
}

/// The key of item `k` already occurs among the items before it.
pub open spec fn repeats<T: TextKeyed>(items: Seq<T>, k: int) -> bool {
    exists|j: int| 0 <= j < k && #[trigger] items[j].key_text() == items[k].key_text()
}

/// Some item has key `text`.
pub open spec fn has_key<T: TextKeyed>(items: Seq<T>, text: Seq<char>) -> bool {
    exists|j: int| 0 <= j < items.len() && #[trigger] items[j].key_text() == text
}

/// Index of the first item with key `text` among the first `count` items.
pub open spec fn first_key_index<T: TextKeyed>(items: Seq<T>, text: Seq<char>, count: int) -> Option<int>
    decreases count,
{
    if count <= 0 {
        None
    } else {
        match first_key_index(items, text, count - 1) {
            Some(i) => Some(i),
            None => if items[count - 1].key_text() == text {
                Some(count - 1)
            } else {
                None
            },
        }
    }
}

/// Index of the last item with key `text` among the first `count` items.
pub open spec fn last_key_index<T: TextKeyed>(items: Seq<T>, text: Seq<char>, count: int) -> Option<int>
    decreases count,
{
    if count <= 0 {
        None
    } else if items[count - 1].key_text() == text {
        Some(count - 1)
    } else {
        last_key_index(items, text, count - 1)
    }
}

/// Issues of the first `count` items, `issue_at(k)` for item `k`, concatenated in order.
pub open spec fn concat_upto(issue_at: spec_fn(int) -> Seq<CircuitValidationIssue>, count: int) -> Seq<CircuitValidationIssue>
    decreases count,
{
    if count <= 0 {
        Seq::empty()
    } else {
        concat_upto(issue_at, count - 1) + issue_at(count - 1)
    }
}

/// One issue when `condition` holds, none otherwise.
pub open spec fn issue_if(condition: bool, issue: CircuitValidationIssue) -> Seq<CircuitValidationIssue> {
    if condition {
        seq![issue]
    } else {
        Seq::empty()
    }
}

pub(crate) fn key_repeats<T: TextKeyed>(items: &Vec<T>, k: usize) -> (found: bool)
    requires
        k < items@.len(),
    ensures
        found == repeats(items@, k as int),
{
    let mut j: usize = 0;
    while j < k
        invariant
            j <= k < items@.len(),
            forall|i: int| 0 <= i < j ==> #[trigger] items@[i].key_text() != items@[k as int].key_text(),
        decreases k - j,
    {
        if crate::identity::same_text(items[j].key(), items[k].key()) {
            return true;
        }
        j = j + 1;
    }
    false
}

pub(crate) fn contains_key<T: TextKeyed>(items: &Vec<T>, text: &String) -> (found: bool)
    ensures
        found == has_key(items@, text@),
{
    let mut j: usize = 0;
    while j < items.len()
        invariant
            j <= items@.len(),
            forall|i: int| 0 <= i < j ==> #[trigger] items@[i].key_text() != text@,
        decreases items@.len() - j,
    {
        if crate::identity::same_text(items[j].key(), text) {
            return true;
        }
        j = j + 1;
    }
    false
}

pub(crate) fn first_key<T: TextKeyed>(items: &Vec<T>, text: &String) -> (found: Option<usize>)
    ensures
        opt_usize(found) == first_key_index(items@, text@, items@.len() as int),
        found matches Some(i) ==> i < items@.len(),
{
    let mut j: usize = 0;
    while j < items.len()
        invariant
            j <= items@.len(),
            first_key_index(items@, text@, j as int) is None,
        decreases items@.len() - j,
    {
        if crate::identity::same_text(items[j].key(), text) {
            proof {
                lemma_first_key_stable(items@, text@, j as int + 1, items@.len() as int);
            }
            return Some(j);
        }
        j = j + 1;
    }
    None
}

pub(crate) fn last_key<T: TextKeyed>(items: &Vec<T>, text: &String) -> (found: Option<usize>)
    ensures
        opt_usize(found) == last_key_index(items@, text@, items@.len() as int),
        found matches Some(i) ==> i < items@.len(),
{
    let mut found: Option<usize> = None;
    let mut j: usize = 0;
    while j < items.len()
        invariant
            j <= items@.len(),
            opt_usize(found) == last_key_index(items@, text@, j as int),
            found matches Some(i) ==> i < j,
        decreases items@.len() - j,
    {
        if crate::identity::same_text(items[j].key(), text) {
            found = Some(j);
        }
        j = j + 1;
    }
    found
}

// ---------------------------------------------------------------------------
// Key order.
// ---------------------------------------------------------------------------

/// The items named by `order` come in strictly increasing key order.
pub open spec fn keys_ascending<T: TextKeyed>(items: Seq<T>, order: Seq<usize>) -> bool {
    forall|a: int, b: int|
        0 <= a < b < order.len() ==> text_before(
            items[#[trigger] order[a] as int].key_text(),
            items[#[trigger] order[b] as int].key_text(),
        )
}

/// `order` lists, by increasing key text, the first item of each key of
/// `items`: each key once.
pub open spec fn key_order<T: TextKeyed>(items: Seq<T>, order: Seq<usize>) -> bool {
    &&& forall|k: int| 0 <= k < order.len() ==> #[trigger] order[k] < items.len() && !repeats(items, order[k] as int)
    &&& keys_ascending(items, order)
    &&& forall|i: usize| i < items.len() && !#[trigger] repeats(items, i as int) ==> order.contains(i)
}

/// The distinct keys of a sequence, each by the index of its first item, in
/// increasing key order.
pub open spec fn sorted_key_order<T: TextKeyed>(items: Seq<T>) -> Seq<usize> {
    choose|order: Seq<usize>| key_order(items, order)
}

proof fn lemma_ascending_same_members<T: TextKeyed>(items: Seq<T>, s1: Seq<usize>, s2: Seq<usize>)
    requires
        keys_ascending(items, s1),
        keys_ascending(items, s2),
        forall|x: usize| s1.contains(x) <==> s2.contains(x),
    ensures
        s1 == s2,
    decreases s1.len(),
{
    if s1.len() == 0 {
        if s2.len() > 0 {
            assert(s2.contains(s2[0]));
        }
        assert(s1 =~= s2);
    } else {
        assert(s1.contains(s1[0]));
        if s2.len() == 0 {
            assert(false);
        }
        assert(s2.contains(s2[0]));
        let x = s1[0];
        let y = s2[0];
        if x != y {
            let k = choose|k: int| 0 <= k < s2.len() && s2[k] == x;
            let j = choose|j: int| 0 <= j < s1.len() && s1[j] == y;
            assert(k > 0);
            assert(j > 0);
            assert(text_before(items[s2[0] as int].key_text(), items[s2[k] as int].key_text()));
            assert(text_before(items[s1[0] as int].key_text(), items[s1[j] as int].key_text()));
            lemma_text_before_asymmetric(items[x as int].key_text(), items[y as int].key_text());
        }
        let t1 = s1.drop_first();
        let t2 = s2.drop_first();
        assert forall|z: usize| t1.contains(z) <==> t2.contains(z) by {
            if t1.contains(z) {
                let k = choose|k: int| 0 <= k < t1.len() && t1[k] == z;
                assert(s1[k + 1] == z);
                assert(text_before(items[s1[0] as int].key_text(), items[s1[k + 1] as int].key_text()));
                lemma_text_before_irreflexive(items[x as int].key_text());
                assert(s1.contains(z));
                let m = choose|m: int| 0 <= m < s2.len() && s2[m] == z;
                assert(m != 0);
                assert(t2[m - 1] == z);
            }
            if t2.contains(z) {
                let k = choose|k: int| 0 <= k < t2.len() && t2[k] == z;
                assert(s2[k + 1] == z);
                assert(text_before(items[s2[0] as int].key_text(), items[s2[k + 1] as int].key_text()));
                lemma_text_before_irreflexive(items[y as int].key_text());
                assert(s2.contains(z));
                let m = choose|m: int| 0 <= m < s1.len() && s1[m] == z;
                assert(m != 0);
                assert(t1[m - 1] == z);
            }
        }
        assert(keys_ascending(items, t1)) by {
            assert forall|a: int, b: int| 0 <= a < b < t1.len() implies text_before(
                items[#[trigger] t1[a] as int].key_text(),
                items[#[trigger] t1[b] as int].key_text(),
            ) by {
                assert(t1[a] == s1[a + 1] && t1[b] == s1[b + 1]);
            }
        }
        assert(keys_ascending(items, t2)) by {
            assert forall|a: int, b: int| 0 <= a < b < t2.len() implies text_before(
                items[#[trigger] t2[a] as int].key_text(),
                items[#[trigger] t2[b] as int].key_text(),
            ) by {
                assert(t2[a] == s2[a + 1] && t2[b] == s2[b + 1]);
            }
        }
        lemma_ascending_same_members(items, t1, t2);
        assert(s1 =~= seq![x] + t1);
        assert(s2 =~= seq![y] + t2);
    }
}

/// There is one key order of a sequence.
proof fn lemma_key_order_unique<T: TextKeyed>(items: Seq<T>, o1: Seq<usize>, o2: Seq<usize>)
    requires
        key_order(items, o1),
        key_order(items, o2),
    ensures
        o1 == o2,
{
    assert forall|x: usize| o1.contains(x) <==> o2.contains(x) by {
        if o1.contains(x) {
            let k = choose|k: int| 0 <= k < o1.len() && o1[k] == x;
            assert(x < items.len() && !repeats(items, o1[k] as int));
        }
        if o2.contains(x) {
            let k = choose|k: int| 0 <= k < o2.len() && o2[k] == x;
            assert(x < items.len() && !repeats(items, o2[k] as int));
        }
    }
    lemma_ascending_same_members(items, o1, o2);
}

proof fn lemma_insert_ascending<T: TextKeyed>(items: Seq<T>, order: Seq<usize>, q: int, i: usize)
    requires
        keys_ascending(items, order),
        0 <= q <= order.len(),
        forall|k: int| 0 <= k < q ==> text_before(items[#[trigger] order[k] as int].key_text(), items[i as int].key_text()),
        q < order.len() ==> text_before(items[i as int].key_text(), items[order[q] as int].key_text()),
    ensures
        keys_ascending(items, order.insert(q, i)),
{
    let next = order.insert(q, i);
    assert forall|a: int, b: int| 0 <= a < b < next.len() implies text_before(
        items[#[trigger] next[a] as int].key_text(),
        items[#[trigger] next[b] as int].key_text(),
    ) by {
        if b < q {
            assert(next[a] == order[a] && next[b] == order[b]);
        } else if b == q {
            assert(next[a] == order[a] && next[b] == i);
        } else if a < q {
            assert(next[a] == order[a] && next[b] == order[b - 1]);
            if b - 1 > q {
                lemma_text_before_transitive(
                    items[order[a] as int].key_text(),
                    items[order[q] as int].key_text(),
                    items[order[b - 1] as int].key_text(),
                );
            } else {
                lemma_text_before_transitive(
                    items[order[a] as int].key_text(),
                    items[i as int].key_text(),
                    items[order[b - 1] as int].key_text(),
                );
            }
        } else if a == q {
            assert(next[a] == i && next[b] == order[b - 1]);
            if b - 1 > q {
                lemma_text_before_transitive(
                    items[i as int].key_text(),
                    items[order[q] as int].key_text(),
                    items[order[b - 1] as int].key_text(),
                );
            }
        } else {
            assert(next[a] == order[a - 1] && next[b] == order[b - 1]);
        }
    }
}

/// The distinct keys of a sequence in increasing key order, each by the index
/// of its first item.
pub(crate) fn sorted_keys<T: TextKeyed>(items: &Vec<T>) -> (order: Vec<usize>)
    ensures
        order@ == sorted_key_order(items@),
        key_order(items@, order@),
{
    let mut order: Vec<usize> = Vec::new();
    let mut i: usize = 0;
    while i < items.len()
        invariant
            i <= items@.len(),
            forall|k: int| 0 <= k < order@.len() ==> #[trigger] order@[k] < i && !repeats(items@, order@[k] as int),
            keys_ascending(items@, order@),
            forall|j: usize| j < i && !#[trigger] repeats(items@, j as int) ==> order@.contains(j),
        decreases items.len() - i,
    {
        if !key_repeats(items, i) {
            let mut q: usize = 0;
            while q < order.len() && text_less(items[order[q]].key(), items[i].key())
                invariant
                    q <= order@.len(),
                    i < items@.len(),
                    forall|k: int| 0 <= k < order@.len() ==> #[trigger] order@[k] < i,
                    forall|k: int| 0 <= k < q ==> text_before(items@[#[trigger] order@[k] as int].key_text(), items@[i as int].key_text()),
                decreases order.len() - q,
            {
                q = q + 1;
            }
            proof {
                assert forall|k: int| 0 <= k < order@.len() implies items@[#[trigger] order@[k] as int].key_text() != items@[i as int].key_text() by {
                    if items@[order@[k] as int].key_text() == items@[i as int].key_text() {
                                                assert(repeats(items@, i as int));
                    }
                }
                if q < order@.len() {
                    lemma_text_before_total(items@[order@[q as int] as int].key_text(), items@[i as int].key_text());
                }
                lemma_insert_ascending(items@, order@, q as int, i);
            }
            let ghost before = order@;
            order.insert(q, i);
            proof {
                assert forall|k: int| 0 <= k < order@.len() implies #[trigger] order@[k] < i + 1 && !repeats(items@, order@[k] as int) by {
                    if k < q {
                        assert(order@[k] == before[k]);
                    } else if k > q {
                        assert(order@[k] == before[k - 1]);
                    }
                }
                assert forall|j: usize| j < i + 1 && !#[trigger] repeats(items@, j as int) implies order@.contains(j) by {
                    if j == i {
                        assert(order@[q as int] == i);
                    } else {
                        assert(before.contains(j));
                        let k = choose|k: int| 0 <= k < before.len() && before[k] == j;
                        if k < q {
                            assert(order@[k] == j);
                        } else {
                            assert(order@[k + 1] == j);
                        }
                    }
                }
            }
        }
        i = i + 1;
    }
    proof {
        assert(key_order(items@, order@));
        lemma_key_order_unique(items@, order@, sorted_key_order(items@));
    }
    order
}

proof fn lemma_insert_position<T: TextKeyed>(items: Seq<T>, order: Seq<usize>, i: int) -> (q: int)
    requires
        keys_ascending(items, order),
        0 <= i < items.len(),
        forall|k: int|
            0 <= k < order.len() ==> #[trigger] order[k] < items.len() && items[order[k] as int].key_text()
                != items[i].key_text(),
    ensures
        0 <= q <= order.len(),
        forall|k: int| 0 <= k < q ==> text_before(items[#[trigger] order[k] as int].key_text(), items[i].key_text()),
        q < order.len() ==> text_before(items[i].key_text(), items[order[q] as int].key_text()),
    decreases order.len(),
{
    if order.len() == 0 {
        0
    } else {
        let front = order.drop_last();
        assert(keys_ascending(items, front)) by {
            assert forall|a: int, b: int| 0 <= a < b < front.len() implies text_before(
                items[#[trigger] front[a] as int].key_text(),
                items[#[trigger] front[b] as int].key_text(),
            ) by {
                assert(front[a] == order[a] && front[b] == order[b]);
            }
        }
        assert forall|k: int| 0 <= k < front.len() implies #[trigger] front[k] < items.len() && items[front[k] as int].key_text()
            != items[i].key_text() by {
            assert(front[k] == order[k]);
        }
        let q0 = lemma_insert_position(items, front, i);
        let last = order.len() - 1;
        if q0 < front.len() {
            assert forall|k: int| 0 <= k < q0 implies text_before(items[#[trigger] order[k] as int].key_text(), items[i].key_text()) by {
                assert(front[k] == order[k]);
            }
            assert(front[q0] == order[q0]);
            q0
        } else {
            assert forall|k: int| 0 <= k < last implies text_before(items[#[trigger] order[k] as int].key_text(), items[i].key_text()) by {
                assert(front[k] == order[k]);
            }
            assert(order[last] < items.len());
            lemma_text_before_total(items[order[last] as int].key_text(), items[i].key_text());
            if text_before(items[order[last] as int].key_text(), items[i].key_text()) {
                order.len() as int
            } else {
                last
            }
        }
    }
}

proof fn lemma_key_order_prefix<T: TextKeyed>(items: Seq<T>, i: int) -> (order: Seq<usize>)
    requires
        0 <= i <= items.len() <= usize::MAX,
    ensures
        forall|k: int| 0 <= k < order.len() ==> #[trigger] order[k] < i && !repeats(items, order[k] as int),
        keys_ascending(items, order),
        forall|j: usize| j < i && !#[trigger] repeats(items, j as int) ==> order.contains(j),
    decreases i,
{
    if i == 0 {
        Seq::empty()
    } else {
        let prev = lemma_key_order_prefix(items, i - 1);
        let new = (i - 1) as usize;
        if repeats(items, i - 1) {
            prev
        } else {
            assert forall|k: int| 0 <= k < prev.len() implies #[trigger] prev[k] < items.len() && items[prev[k] as int].key_text()
                != items[i - 1].key_text() by {
                if items[prev[k] as int].key_text() == items[i - 1].key_text() {
                    assert(repeats(items, i - 1));
                }
            }
            let q = lemma_insert_position(items, prev, i - 1);
            lemma_insert_ascending(items, prev, q, new);
            let next = prev.insert(q, new);
            assert forall|k: int| 0 <= k < next.len() implies #[trigger] next[k] < i && !repeats(items, next[k] as int) by {
                if k < q {
                    assert(next[k] == prev[k]);
                } else if k > q {
                    assert(next[k] == prev[k - 1]);
                }
            }
            assert forall|j: usize| j < i && !#[trigger] repeats(items, j as int) implies next.contains(j) by {
                if j == new {
                    assert(next[q] == new);
                } else {
                    assert(prev.contains(j));
                    let k = choose|k: int| 0 <= k < prev.len() && prev[k] == j;
                    if k < q {
                        assert(next[k] == j);
                    } else {
                        assert(next[k + 1] == j);
                    }
                }
            }
            next
        }
    }
}

/// Every sequence that fits in memory has its key order.
pub proof fn lemma_key_order_exists<T: TextKeyed>(items: Seq<T>)
    requires
        items.len() <= usize::MAX,
    ensures
        key_order(items, sorted_key_order(items)),
{
    let order = lemma_key_order_prefix(items, items.len() as int);
    assert(key_order(items, order));
}

/// An optional index as a mathematical index.
pub open spec fn opt_usize(index: Option<usize>) -> Option<int> {
    match index {
        Some(i) => Some(i as int),
        None => None,
    }
}

pub(crate) proof fn lemma_first_key_stable<T: TextKeyed>(items: Seq<T>, text: Seq<char>, count: int, later: int)
    requires
        0 < count <= later,
        first_key_index(items, text, count) is Some,
    ensures
        first_key_index(items, text, later) == first_key_index(items, text, count),
    decreases later - count,
{
    if later > count {
        lemma_first_key_stable(items, text, count, later - 1);
    }
}

pub(crate) proof fn lemma_first_key_found<T: TextKeyed>(items: Seq<T>, text: Seq<char>, count: int)
    requires
        0 <= count <= items.len(),
    ensures
        first_key_index(items, text, count) matches Some(i) ==> 0 <= i < count && items[i].key_text() == text,
        first_key_index(items, text, count) is None ==> forall|j: int| 0 <= j < count ==> #[trigger] items[j].key_text() != text,
    decreases count,
{
    if count > 0 {
        lemma_first_key_found(items, text, count - 1);
    }
}


// ---------------------------------------------------------------------------
// Nets, buses, slices, rails and ports.
// ---------------------------------------------------------------------------

/// Number of ground-marked nets among the first `count`.
pub open spec fn ground_count(nets: Seq<Net>, count: int) -> int
    decreases count,
{
    if count <= 0 {
        0
    } else {
        ground_count(nets, count - 1) + if nets[count - 1].is_ground {
            1int
        } else {
            0int
        }
    }
}

/// Index of the first ground-marked net among the first `count`.
pub open spec fn first_ground(nets: Seq<Net>, count: int) -> Option<int>
    decreases count,
{
    if count <= 0 {
        None
    } else {
        match first_ground(nets, count - 1) {
            Some(i) => Some(i),
            None => if nets[count - 1].is_ground {
                Some(count - 1)
            } else {
                None
            },
        }
    }
}

/// Issues of net `k`: a repeated identity.
pub open spec fn net_issues(nets: Seq<Net>) -> spec_fn(int) -> Seq<CircuitValidationIssue> {
    |k: int| issue_if(repeats(nets, k), CircuitValidationIssue::DuplicateNet(nets[k].id))
}

/// Net section: duplicates in order, then more than one ground marker.
pub open spec fn net_section(c: Circuit) -> Seq<CircuitValidationIssue> {
    concat_upto(net_issues(c.nets@), c.nets@.len() as int) + issue_if(
        ground_count(c.nets@, c.nets@.len() as int) > 1,
        CircuitValidationIssue::MultipleGroundNets,
    )
}

/// Issues of member `m` of bus `bus`: an unknown net, then a repeated member.
pub open spec fn bus_member_issues(c: Circuit, bus: Bus) -> spec_fn(int) -> Seq<CircuitValidationIssue> {
    |m: int|
        issue_if(
            !has_key(c.nets@, bus.nets@[m]@),
            CircuitValidationIssue::UnknownBusNet { bus: bus.id, net: bus.nets@[m] },
        ) + issue_if(
            repeats(bus.nets@, m),
            CircuitValidationIssue::DuplicateBusNet { bus: bus.id, net: bus.nets@[m] },
        )
}

/// Issues of bus `b`: a repeated identity, emptiness, then its members.
pub open spec fn bus_issues(c: Circuit) -> spec_fn(int) -> Seq<CircuitValidationIssue> {
    |b: int|
        issue_if(repeats(c.buses@, b), CircuitValidationIssue::DuplicateBus(c.buses@[b].id)) + issue_if(
            c.buses@[b].nets@.len() == 0,
            CircuitValidationIssue::EmptyBus(c.buses@[b].id),
        ) + concat_upto(bus_member_issues(c, c.buses@[b]), c.buses@[b].nets@.len() as int)
}

/// Issues of slice `s`: a repeated identity, then an unknown bus (the last
/// bus declared with the named identity is used) or an invalid range.
pub open spec fn slice_issues(c: Circuit) -> spec_fn(int) -> Seq<CircuitValidationIssue> {
    |s: int|
        issue_if(repeats(c.bus_slices@, s), CircuitValidationIssue::DuplicateBusSlice(c.bus_slices@[s].id))
            + match last_key_index(c.buses@, c.bus_slices@[s].bus@, c.buses@.len() as int) {
            None => seq![
                CircuitValidationIssue::UnknownBusSliceBus {
                    slice: c.bus_slices@[s].id,
                    bus: c.bus_slices@[s].bus,
                },
            ],
            Some(b) => issue_if(
                spec_slice_members(c.bus_slices@[s], c.buses@[b]) is None,
                CircuitValidationIssue::InvalidBusSliceRange(c.bus_slices@[s].id),
            ),
        }
}

/// The rail's ground declaration disagrees with the circuit's first ground net.
pub open spec fn rail_ground_mismatch(c: Circuit, rail: RailIntent) -> bool {
    (rail.kind == RailKind::Ground) != match first_ground(c.nets@, c.nets@.len() as int) {
        Some(g) => c.nets@[g].id@ == rail.net@,
        None => false,
    }
}

/// A declared maximum current is not structurally positive.
pub open spec fn rail_current_invalid(rail: RailIntent) -> bool {
    match rail.max_current {
        Some(current) => real_structural_sign(current) != Some(SignFact::Positive),
        None => false,
    }
}

/// Issues of rail `r` when `current_flags[r]` is the outcome of its current
/// check: repeated net, unknown net, ground mismatch, then an invalid current
/// exactly when the flag is set.
pub open spec fn rail_issues_seen(c: Circuit, current_flags: Seq<bool>) -> spec_fn(int) -> Seq<CircuitValidationIssue> {
    |r: int|
        issue_if(repeats(c.rails@, r), CircuitValidationIssue::DuplicateRailIntent(c.rails@[r].net))
            + issue_if(!has_key(c.nets@, c.rails@[r].net@), CircuitValidationIssue::UnknownRailNet(c.rails@[r].net))
            + issue_if(rail_ground_mismatch(c, c.rails@[r]), CircuitValidationIssue::GroundRailMismatch(c.rails@[r].net))
            + issue_if(current_flags[r], CircuitValidationIssue::InvalidRailCurrent(c.rails@[r].net))
}

/// The outcome of every rail's current check, decided exactly.
pub open spec fn exact_rail_flags(c: Circuit) -> Seq<bool> {
    Seq::new(c.rails@.len(), |r: int| rail_current_invalid(c.rails@[r]))
}

/// Issues of port `p`: repeated identity, unknown net.
pub open spec fn port_issues(c: Circuit) -> spec_fn(int) -> Seq<CircuitValidationIssue> {
    |p: int|
        issue_if(repeats(c.ports@, p), CircuitValidationIssue::DuplicatePort(c.ports@[p].id)) + issue_if(
            !has_key(c.nets@, c.ports@[p].net@),
            CircuitValidationIssue::UnknownPortNet { port: c.ports@[p].id, net: c.ports@[p].net },
        )
}

fn push_if(issues: &mut Vec<CircuitValidationIssue>, condition: bool, issue: CircuitValidationIssue)
    ensures
        final(issues)@ == old(issues)@ + issue_if(condition, issue),
{
    if condition {
        issues.push(issue);
    }
    proof {
        assert(issues@ =~= old(issues)@ + issue_if(condition, issue));
    }
}

impl Circuit {
    fn check_nets(&self, issues: &mut Vec<CircuitValidationIssue>)
        ensures
            final(issues)@ == old(issues)@ + net_section(*self),
    {
        let ghost start = issues@;
        let mut grounds: usize = 0;
        let mut k: usize = 0;
        while k < self.nets.len()
            invariant
                k <= self.nets@.len(),
                issues@ == start + concat_upto(net_issues(self.nets@), k as int),
                grounds == ground_count(self.nets@, k as int),
                grounds <= k,
            decreases self.nets@.len() - k,
        {
            let dup = key_repeats(&self.nets, k);
            push_if(issues, dup, CircuitValidationIssue::DuplicateNet(self.nets[k].id.clone()));
            if self.nets[k].is_ground {
                grounds = grounds + 1;
            }
            k = k + 1;
            proof {
                assert(issues@ =~= start + concat_upto(net_issues(self.nets@), k as int));
            }
        }
        push_if(issues, grounds > 1, CircuitValidationIssue::MultipleGroundNets);
        proof {
            assert(issues@ =~= start + net_section(*self));
        }
    }

    fn check_buses(&self, issues: &mut Vec<CircuitValidationIssue>)
        ensures
            final(issues)@ == old(issues)@ + concat_upto(bus_issues(*self), self.buses@.len() as int),
    {
        let ghost start = issues@;
        let mut b: usize = 0;
        while b < self.buses.len()
            invariant
                b <= self.buses@.len(),
                issues@ == start + concat_upto(bus_issues(*self), b as int),
            decreases self.buses@.len() - b,
        {
            let ghost before = issues@;
            let bus = &self.buses[b];
            let dup = key_repeats(&self.buses, b);
            push_if(issues, dup, CircuitValidationIssue::DuplicateBus(bus.id.clone()));
            push_if(issues, bus.nets.len() == 0, CircuitValidationIssue::EmptyBus(bus.id.clone()));
            let ghost header = issues@;
            let mut m: usize = 0;
            while m < bus.nets.len()
                invariant
                    m <= bus.nets@.len(),
                    *bus == self.buses@[b as int],
                    issues@ == header + concat_upto(bus_member_issues(*self, *bus), m as int),
                decreases bus.nets@.len() - m,
            {
                let known = contains_key(&self.nets, &bus.nets[m].0);
                push_if(
                    issues,
                    !known,
                    CircuitValidationIssue::UnknownBusNet { bus: bus.id.clone(), net: bus.nets[m].clone() },
                );
                let dup_member = key_repeats(&bus.nets, m);
                push_if(
                    issues,
                    dup_member,
                    CircuitValidationIssue::DuplicateBusNet { bus: bus.id.clone(), net: bus.nets[m].clone() },
                );
                m = m + 1;
                proof {
                    assert(issues@ =~= header + concat_upto(bus_member_issues(*self, *bus), m as int));
                }
            }
            b = b + 1;
            proof {
                assert(issues@ =~= start + concat_upto(bus_issues(*self), b as int));
            }
        }
    }

    fn check_bus_slices(&self, issues: &mut Vec<CircuitValidationIssue>)
        ensures
            final(issues)@ == old(issues)@ + concat_upto(slice_issues(*self), self.bus_slices@.len() as int),
    {
        let ghost start = issues@;
        let mut s: usize = 0;
        while s < self.bus_slices.len()
            invariant
                s <= self.bus_slices@.len(),
                issues@ == start + concat_upto(slice_issues(*self), s as int),
            decreases self.bus_slices@.len() - s,
        {
            let slice = &self.bus_slices[s];
            let dup = key_repeats(&self.bus_slices, s);
            push_if(issues, dup, CircuitValidationIssue::DuplicateBusSlice(slice.id.clone()));
            match last_key(&self.buses, &slice.bus.0) {
                None => {
                    issues.push(
                        CircuitValidationIssue::UnknownBusSliceBus { slice: slice.id.clone(), bus: slice.bus.clone() },
                    );
                },
                Some(b) => {
                    let members = slice.members(&self.buses[b]);
                    push_if(issues, members.is_none(), CircuitValidationIssue::InvalidBusSliceRange(slice.id.clone()));
                },
            }
            s = s + 1;
            proof {
                assert(issues@ =~= start + concat_upto(slice_issues(*self), s as int));
            }
        }
    }

    #[verifier::spinoff_prover]
    #[verifier::rlimit(50)]
    fn check_rails(&self, issues: &mut Vec<CircuitValidationIssue>) -> (current_flags: Ghost<Seq<bool>>)
        ensures
            rail_flags_sound(*self, current_flags@),
            final(issues)@ == old(issues)@ + concat_upto(rail_issues_seen(*self, current_flags@), self.rails@.len() as int),
    {
        let ghost mut flags: Seq<bool> = Seq::empty();
        let ghost start = issues@;
        let mut ground: Option<usize> = None;
        let mut g: usize = 0;
        while g < self.nets.len()
            invariant
                g <= self.nets@.len(),
                opt_usize(ground) == first_ground(self.nets@, g as int),
                ground matches Some(i) ==> i < g,
            decreases self.nets@.len() - g,
        {
            if ground.is_none() && self.nets[g].is_ground {
                ground = Some(g);
            }
            g = g + 1;
        }
        let mut r: usize = 0;
        while r < self.rails.len()
            invariant
                r <= self.rails@.len(),
                opt_usize(ground) == first_ground(self.nets@, self.nets@.len() as int),
                ground matches Some(i) ==> i < self.nets@.len(),
                flags.len() == r,
                forall|i: int|
                    0 <= i < r && rail_numbers_rational(#[trigger] self.rails@[i]) ==> flags[i] == rail_current_invalid(
                        self.rails@[i],
                    ),
                issues@ == start + concat_upto(rail_issues_seen(*self, flags), r as int),
            decreases self.rails@.len() - r,
        {
            let rail = &self.rails[r];
            let dup = key_repeats(&self.rails, r);
            push_if(issues, dup, CircuitValidationIssue::DuplicateRailIntent(rail.net.clone()));
            let known = contains_key(&self.nets, &rail.net.0);
            push_if(issues, !known, CircuitValidationIssue::UnknownRailNet(rail.net.clone()));
            let declares_ground = match rail.kind {
                RailKind::Ground => true,
                _ => false,
            };
            let is_ground = match ground {
                Some(i) => self.nets[i].id.same(&rail.net),
                None => false,
            };
            push_if(issues, declares_ground != is_ground, CircuitValidationIssue::GroundRailMismatch(rail.net.clone()));
            let invalid_current = match &rail.max_current {
                Some(current) => real_sign_fact(current) != Some(SignFact::Positive),
                None => false,
            };
            push_if(issues, invalid_current, CircuitValidationIssue::InvalidRailCurrent(rail.net.clone()));
            proof {
                let old_flags = flags;
                flags = flags.push(invalid_current);
                assert forall|i: int| 0 <= i < r implies #[trigger] rail_issues_seen(*self, flags)(i) == rail_issues_seen(
                    *self,
                    old_flags,
                )(i) by {
                    assert(flags[i] == old_flags[i]);
                }
                lemma_concat_agree(rail_issues_seen(*self, flags), rail_issues_seen(*self, old_flags), r as int);
            }
            r = r + 1;
            proof {
                assert(issues@ =~= start + concat_upto(rail_issues_seen(*self, flags), r as int));
            }
        }
        Ghost(flags)
    }

    fn check_ports(&self, issues: &mut Vec<CircuitValidationIssue>)
        ensures
            final(issues)@ == old(issues)@ + concat_upto(port_issues(*self), self.ports@.len() as int),
    {
        let ghost start = issues@;
        let mut p: usize = 0;
        while p < self.ports.len()
            invariant
                p <= self.ports@.len(),
                issues@ == start + concat_upto(port_issues(*self), p as int),
            decreases self.ports@.len() - p,
        {
            let port = &self.ports[p];
            let dup = key_repeats(&self.ports, p);
            push_if(issues, dup, CircuitValidationIssue::DuplicatePort(port.id.clone()));
            let known = contains_key(&self.nets, &port.net.0);
            push_if(
                issues,
                !known,
                CircuitValidationIssue::UnknownPortNet { port: port.id.clone(), net: port.net.clone() },
            );
            p = p + 1;
            proof {
                assert(issues@ =~= start + concat_upto(port_issues(*self), p as int));
            }
        }
    }
}


// ---------------------------------------------------------------------------
// Device models and instances.
// ---------------------------------------------------------------------------

/// A MOSFET model whose drain/gate/source roles coincide or name undeclared pins.
pub open spec fn mosfet_terminals_invalid(model: DeviceModel) -> bool {
    match model.kind {
        DeviceModelKind::Mosfet { drain, gate, source, .. } => {
            ||| drain@ == gate@
            ||| drain@ == source@
            ||| gate@ == source@
            ||| !has_key(model.pins@, drain@)
            ||| !has_key(model.pins@, gate@)
            ||| !has_key(model.pins@, source@)
        },
        _ => false,
    }
}

/// Issues of pin `q` of a model: a repeated pin.
pub open spec fn model_pin_issues(model: DeviceModel) -> spec_fn(int) -> Seq<CircuitValidationIssue> {
    |q: int|
        issue_if(
            repeats(model.pins@, q),
            CircuitValidationIssue::DuplicateDeviceModelPin { model: model.id, pin: model.pins@[q].pin },
        )
}

/// Issues of model `m`: repeated identity, repeated pins, invalid MOSFET roles.
pub open spec fn model_issues(c: Circuit) -> spec_fn(int) -> Seq<CircuitValidationIssue> {
    |m: int|
        issue_if(repeats(c.device_models@, m), CircuitValidationIssue::DuplicateDeviceModel(c.device_models@[m].id))
            + concat_upto(model_pin_issues(c.device_models@[m]), c.device_models@[m].pins@.len() as int)
            + issue_if(
            mosfet_terminals_invalid(c.device_models@[m]),
            CircuitValidationIssue::InvalidMosfetTerminals(c.device_models@[m].id),
        )
}

/// The component of instance `k` already belongs to an earlier instance.
pub open spec fn component_repeats(instances: Seq<CircuitInstance>, k: int) -> bool {
    exists|j: int| 0 <= j < k && #[trigger] instances[j].component@ == instances[k].component@
}

/// Index of the first model with the instance's model identity.
pub open spec fn instance_model(c: Circuit, instance: CircuitInstance) -> Option<int> {
    first_key_index(c.device_models@, instance.model@, c.device_models@.len() as int)
}

/// Issues of binding `b` of an instance: repeated pin, unknown net, pin absent from the model.
pub open spec fn binding_issues(c: Circuit, instance: CircuitInstance) -> spec_fn(int) -> Seq<CircuitValidationIssue> {
    |b: int|
        issue_if(
            repeats(instance.pins@, b),
            CircuitValidationIssue::DuplicateInstancePin { instance: instance.id, pin: instance.pins@[b].pin },
        ) + issue_if(
            !has_key(c.nets@, instance.pins@[b].net@),
            CircuitValidationIssue::UnknownInstanceNet {
                instance: instance.id,
                pin: instance.pins@[b].pin,
                net: instance.pins@[b].net,
            },
        ) + issue_if(
            match instance_model(c, instance) {
                Some(mi) => !has_key(c.device_models@[mi].pins@, instance.pins@[b].pin@),
                None => false,
            },
            CircuitValidationIssue::UnknownInstancePin { instance: instance.id, pin: instance.pins@[b].pin },
        )
}

/// Issues of model pin `q` for an instance: a required pin left unbound.
pub open spec fn required_pin_issues(instance: CircuitInstance, model: DeviceModel) -> spec_fn(int) -> Seq<CircuitValidationIssue> {
    |q: int|
        issue_if(
            !model.pins@[q].optional && !has_key(instance.pins@, model.pins@[q].pin@),
            CircuitValidationIssue::MissingRequiredInstancePin { instance: instance.id, pin: model.pins@[q].pin },
        )
}

/// Issues of instance `k`: repeated identity, repeated component, unknown
/// model, its bindings, then required pins of its (first) model left unbound.
pub open spec fn instance_issues(c: Circuit) -> spec_fn(int) -> Seq<CircuitValidationIssue> {
    |k: int|
        issue_if(repeats(c.instances@, k), CircuitValidationIssue::DuplicateInstance(c.instances@[k].id))
            + issue_if(
            component_repeats(c.instances@, k),
            CircuitValidationIssue::DuplicateComponent(c.instances@[k].component),
        ) + issue_if(
            !has_key(c.device_models@, c.instances@[k].model@),
            CircuitValidationIssue::UnknownInstanceModel {
                instance: c.instances@[k].id,
                model: c.instances@[k].model,
            },
        ) + concat_upto(binding_issues(c, c.instances@[k]), c.instances@[k].pins@.len() as int)
            + match instance_model(c, c.instances@[k]) {
            Some(mi) => concat_upto(
                required_pin_issues(c.instances@[k], c.device_models@[mi]),
                c.device_models@[mi].pins@.len() as int,
            ),
            None => Seq::empty(),
        }
}

fn component_seen(instances: &Vec<CircuitInstance>, k: usize) -> (found: bool)
    requires
        k < instances@.len(),
    ensures
        found == component_repeats(instances@, k as int),
{
    let mut j: usize = 0;
    while j < k
        invariant
            j <= k < instances@.len(),
            forall|i: int| 0 <= i < j ==> #[trigger] instances@[i].component@ != instances@[k as int].component@,
        decreases k - j,
    {
        if instances[j].component.same(&instances[k].component) {
            return true;
        }
        j = j + 1;
    }
    false
}

impl Circuit {
    fn check_models(&self, issues: &mut Vec<CircuitValidationIssue>)
        ensures
            final(issues)@ == old(issues)@ + concat_upto(model_issues(*self), self.device_models@.len() as int),
    {
        let ghost start = issues@;
        let mut m: usize = 0;
        while m < self.device_models.len()
            invariant
                m <= self.device_models@.len(),
                issues@ == start + concat_upto(model_issues(*self), m as int),
            decreases self.device_models@.len() - m,
        {
            let model = &self.device_models[m];
            let dup = key_repeats(&self.device_models, m);
            push_if(issues, dup, CircuitValidationIssue::DuplicateDeviceModel(model.id.clone()));
            let ghost header = issues@;
            let mut q: usize = 0;
            while q < model.pins.len()
                invariant
                    q <= model.pins@.len(),
                    *model == self.device_models@[m as int],
                    issues@ == header + concat_upto(model_pin_issues(*model), q as int),
                decreases model.pins@.len() - q,
            {
                let dup_pin = key_repeats(&model.pins, q);
                push_if(
                    issues,
                    dup_pin,
                    CircuitValidationIssue::DuplicateDeviceModelPin {
                        model: model.id.clone(),
                        pin: model.pins[q].pin.clone(),
                    },
                );
                q = q + 1;
                proof {
                    assert(issues@ =~= header + concat_upto(model_pin_issues(*model), q as int));
                }
            }
            let invalid = match &model.kind {
                DeviceModelKind::Mosfet { drain, gate, source, .. } => {
                    drain.same(gate) || drain.same(source) || gate.same(source) || !contains_key(&model.pins, &drain.0)
                        || !contains_key(&model.pins, &gate.0) || !contains_key(&model.pins, &source.0)
                },
                _ => false,
            };
            push_if(issues, invalid, CircuitValidationIssue::InvalidMosfetTerminals(model.id.clone()));
            m = m + 1;
            proof {
                assert(issues@ =~= start + concat_upto(model_issues(*self), m as int));
            }
        }
    }

    fn check_instance_bindings(&self, k: usize, model: Option<usize>, issues: &mut Vec<CircuitValidationIssue>)
        requires
            k < self.instances@.len(),
            opt_usize(model) == instance_model(*self, self.instances@[k as int]),
            model matches Some(mi) ==> mi < self.device_models@.len(),
        ensures
            final(issues)@ == old(issues)@ + concat_upto(
                binding_issues(*self, self.instances@[k as int]),
                self.instances@[k as int].pins@.len() as int,
            ),
    {
        let instance = &self.instances[k];
        let ghost header = issues@;
        let mut b: usize = 0;
        while b < instance.pins.len()
            invariant
                b <= instance.pins@.len(),
                *instance == self.instances@[k as int],
                opt_usize(model) == instance_model(*self, *instance),
                model matches Some(mi) ==> mi < self.device_models@.len(),
                issues@ == header + concat_upto(binding_issues(*self, *instance), b as int),
            decreases instance.pins@.len() - b,
        {
            let binding = &instance.pins[b];
            let dup_pin = key_repeats(&instance.pins, b);
            push_if(
                issues,
                dup_pin,
                CircuitValidationIssue::DuplicateInstancePin { instance: instance.id.clone(), pin: binding.pin.clone() },
            );
            let known_net = contains_key(&self.nets, &binding.net.0);
            push_if(
                issues,
                !known_net,
                CircuitValidationIssue::UnknownInstanceNet {
                    instance: instance.id.clone(),
                    pin: binding.pin.clone(),
                    net: binding.net.clone(),
                },
            );
            let unknown_pin = match model {
                Some(mi) => !contains_key(&self.device_models[mi].pins, &binding.pin.0),
                None => false,
            };
            push_if(
                issues,
                unknown_pin,
                CircuitValidationIssue::UnknownInstancePin { instance: instance.id.clone(), pin: binding.pin.clone() },
            );
            b = b + 1;
            proof {
                assert(issues@ =~= header + concat_upto(binding_issues(*self, *instance), b as int));
            }
        }
    }

    fn check_required_pins(&self, k: usize, mi: usize, issues: &mut Vec<CircuitValidationIssue>)
        requires
            k < self.instances@.len(),
            mi < self.device_models@.len(),
        ensures
            final(issues)@ == old(issues)@ + concat_upto(
                required_pin_issues(self.instances@[k as int], self.device_models@[mi as int]),
                self.device_models@[mi as int].pins@.len() as int,
            ),
    {
        let instance = &self.instances[k];
        let device = &self.device_models[mi];
        let ghost start = issues@;
        let mut q: usize = 0;
        while q < device.pins.len()
            invariant
                q <= device.pins@.len(),
                *instance == self.instances@[k as int],
                *device == self.device_models@[mi as int],
                issues@ == start + concat_upto(required_pin_issues(*instance, *device), q as int),
            decreases device.pins@.len() - q,
        {
            let required = !device.pins[q].optional && !contains_key(&instance.pins, &device.pins[q].pin.0);
            push_if(
                issues,
                required,
                CircuitValidationIssue::MissingRequiredInstancePin {
                    instance: instance.id.clone(),
                    pin: device.pins[q].pin.clone(),
                },
            );
            q = q + 1;
            proof {
                assert(issues@ =~= start + concat_upto(required_pin_issues(*instance, *device), q as int));
            }
        }
    }

    fn check_instance(&self, k: usize, issues: &mut Vec<CircuitValidationIssue>)
        requires
            k < self.instances@.len(),
        ensures
            final(issues)@ == old(issues)@ + (instance_issues(*self))(k as int),
    {
        let ghost start = issues@;
        let instance = &self.instances[k];
        let dup = key_repeats(&self.instances, k);
        push_if(issues, dup, CircuitValidationIssue::DuplicateInstance(instance.id.clone()));
        let dup_component = component_seen(&self.instances, k);
        push_if(issues, dup_component, CircuitValidationIssue::DuplicateComponent(instance.component.clone()));
        let model = first_key(&self.device_models, &instance.model.0);
        let known_model = contains_key(&self.device_models, &instance.model.0);
        push_if(
            issues,
            !known_model,
            CircuitValidationIssue::UnknownInstanceModel { instance: instance.id.clone(), model: instance.model.clone() },
        );
        self.check_instance_bindings(k, model, issues);
        let ghost after_bindings = issues@;
        if let Some(mi) = model {
            self.check_required_pins(k, mi, issues);
        }
        proof {
            assert(issues@ =~= start + (instance_issues(*self))(k as int));
        }
    }

    fn check_instances(&self, issues: &mut Vec<CircuitValidationIssue>)
        ensures
            final(issues)@ == old(issues)@ + concat_upto(instance_issues(*self), self.instances@.len() as int),
    {
        let ghost start = issues@;
        let mut k: usize = 0;
        while k < self.instances.len()
            invariant
                k <= self.instances@.len(),
                issues@ == start + concat_upto(instance_issues(*self), k as int),
            decreases self.instances@.len() - k,
        {
            self.check_instance(k, issues);
            k = k + 1;
            proof {
                assert(issues@ =~= start + concat_upto(instance_issues(*self), k as int));
            }
        }
    }
}


// ---------------------------------------------------------------------------
// Source stimuli.
// ---------------------------------------------------------------------------

/// Structurally known to be zero or positive.
pub open spec fn nonnegative(x: hyperreal::Real) -> bool {
    real_structural_sign(x) == Some(SignFact::Zero) || real_structural_sign(x) == Some(SignFact::Positive)
}

/// Structurally known to be positive.
pub open spec fn positive(x: hyperreal::Real) -> bool {
    real_structural_sign(x) == Some(SignFact::Positive)
}

/// Certified `a <= b`.
pub open spec fn certified_at_most(a: hyperreal::Real, b: hyperreal::Real) -> bool {
    real_order(a, b) == Some(CmpOutcome::Less) || real_order(a, b) == Some(CmpOutcome::Equal)
}

/// Some adjacent pair of points is not certified strictly increasing in time.
pub open spec fn times_not_increasing(points: Seq<SourceWaveformPoint>) -> bool {
    exists|i: int| 0 <= i && i + 1 < points.len() && #[trigger] real_order(points[i].time, points[i + 1].time) != Some(CmpOutcome::Less)
}

/// Every point time of a piecewise-linear waveform is an exact rational.
pub open spec fn times_rational(points: Seq<SourceWaveformPoint>) -> bool {
    forall|i: int| 0 <= i < points.len() ==> #[trigger] real_rational_class(points[i].time)
}

/// Every number a waveform's validation inspects is an exact rational.
pub open spec fn waveform_numbers_rational(waveform: SourceWaveform) -> bool {
    match waveform {
        SourceWaveform::PiecewiseLinear { points } => times_rational(points@),
        SourceWaveform::Pulse { delay, rise_time, high_time, fall_time, period, .. } => real_rational_class(delay)
            && real_rational_class(rise_time) && real_rational_class(high_time) && real_rational_class(fall_time)
            && real_rational_class(period),
        SourceWaveform::Sine { frequency, delay, damping, .. } => real_rational_class(frequency) && real_rational_class(delay)
            && real_rational_class(damping),
        SourceWaveform::Exponential { rise_delay, rise_time_constant, fall_delay, fall_time_constant, .. } =>
            real_rational_class(rise_delay) && real_rational_class(rise_time_constant) && real_rational_class(fall_delay)
                && real_rational_class(fall_time_constant),
        _ => true,
    }
}

/// A rail's declared current limit, if any, is an exact rational.
pub open spec fn rail_numbers_rational(rail: RailIntent) -> bool {
    match rail.max_current {
        Some(current) => real_rational_class(current),
        None => true,
    }
}

/// Every number the circuit's validation inspects (rail current limits and
/// source waveform numbers) is an exact rational, so that every numeric check
/// is decided from the rationals themselves.
pub open spec fn circuit_numbers_rational(c: Circuit) -> bool {
    &&& forall|r: int| 0 <= r < c.rails@.len() ==> #[trigger] rail_numbers_rational(c.rails@[r])
    &&& forall|s: int| 0 <= s < c.source_stimuli@.len() ==> #[trigger] waveform_numbers_rational(c.source_stimuli@[s].waveform)
}

/// The numeric part of a waveform's check: piecewise-linear times not
/// certified increasing, or pulse, sine or exponential parameters out of range.
pub open spec fn waveform_numbers_invalid(waveform: SourceWaveform) -> bool {
    match waveform {
        SourceWaveform::PiecewiseLinear { points } => times_not_increasing(points@),
        SourceWaveform::Pulse { delay, rise_time, high_time, fall_time, period, .. } => !nonnegative(delay) || !nonnegative(
            rise_time,
        ) || !nonnegative(high_time) || !nonnegative(fall_time) || !positive(period) || !certified_at_most(
            real_sum(real_sum(rise_time, high_time), fall_time),
            period,
        ),
        SourceWaveform::Sine { frequency, delay, damping, .. } => !nonnegative(frequency) || !nonnegative(delay)
            || !nonnegative(damping),
        SourceWaveform::Exponential { rise_delay, rise_time_constant, fall_delay, fall_time_constant, .. } =>
            !nonnegative(rise_delay) || !positive(rise_time_constant) || !certified_at_most(rise_delay, fall_delay)
                || !positive(fall_time_constant),
        _ => false,
    }
}

/// Issues of one stimulus's waveform when `numbers_invalid` is the outcome of
/// its numeric check.
pub open spec fn waveform_issues_seen(stimulus: SourceStimulus, numbers_invalid: bool) -> Seq<CircuitValidationIssue> {
    match stimulus.waveform {
        SourceWaveform::PiecewiseLinear { points } => issue_if(
            points@.len() == 0,
            CircuitValidationIssue::EmptySourceWaveform(stimulus.component),
        ) + issue_if(numbers_invalid, CircuitValidationIssue::NonIncreasingSourceWaveformTime(stimulus.component)),
        SourceWaveform::Pulse { .. } => issue_if(
            numbers_invalid,
            CircuitValidationIssue::InvalidPulseSourceWaveform(stimulus.component),
        ),
        SourceWaveform::Sine { .. } => issue_if(
            numbers_invalid,
            CircuitValidationIssue::InvalidSineSourceWaveform(stimulus.component),
        ),
        SourceWaveform::Exponential { .. } => issue_if(
            numbers_invalid,
            CircuitValidationIssue::InvalidExponentialSourceWaveform(stimulus.component),
        ),
        _ => Seq::empty(),
    }
}

/// Index of the first instance with the component identity `text`.
pub open spec fn first_component_index(instances: Seq<CircuitInstance>, text: Seq<char>, count: int) -> Option<int>
    decreases count,
{
    if count <= 0 {
        None
    } else {
        match first_component_index(instances, text, count - 1) {
            Some(i) => Some(i),
            None => if instances[count - 1].component@ == text {
                Some(count - 1)
            } else {
                None
            },
        }
    }
}

/// Issues of a stimulus's target: no instance has its component, or the
/// (first) model of that instance is not an independent source.
pub open spec fn stimulus_target_issues(c: Circuit, stimulus: SourceStimulus) -> Seq<CircuitValidationIssue> {
    match first_component_index(c.instances@, stimulus.component@, c.instances@.len() as int) {
        None => seq![CircuitValidationIssue::UnknownSourceStimulusComponent(stimulus.component)],
        Some(i) => match instance_model(c, c.instances@[i]) {
            None => Seq::empty(),
            Some(m) => issue_if(
                !(c.device_models@[m].kind is CurrentSource || c.device_models@[m].kind is VoltageSource),
                CircuitValidationIssue::InvalidSourceStimulusTarget(stimulus.component),
            ),
        },
    }
}

/// Issues of stimulus `s` when `numbers_invalid` is the outcome of its
/// waveform's numeric check.
pub open spec fn stimulus_item_issues(c: Circuit, s: int, numbers_invalid: bool) -> Seq<CircuitValidationIssue> {
    issue_if(repeats(c.source_stimuli@, s), CircuitValidationIssue::DuplicateSourceStimulus(c.source_stimuli@[s].component))
        + waveform_issues_seen(c.source_stimuli@[s], numbers_invalid) + stimulus_target_issues(c, c.source_stimuli@[s])
}

/// Issues of stimulus `s` with `wave_flags[s]` as its numeric outcome.
pub open spec fn stimulus_issues_seen(c: Circuit, wave_flags: Seq<bool>) -> spec_fn(int) -> Seq<CircuitValidationIssue> {
    |s: int| stimulus_item_issues(c, s, wave_flags[s])
}

/// The outcome of every stimulus's numeric check, decided exactly.
pub open spec fn exact_wave_flags(c: Circuit) -> Seq<bool> {
    Seq::new(c.source_stimuli@.len(), |s: int| waveform_numbers_invalid(c.source_stimuli@[s].waveform))
}

/// Outcomes of the rail current checks that agree with the exact decision
/// wherever the current is an exact rational (hyperreal decides the others
/// by refinement).
pub open spec fn rail_flags_sound(c: Circuit, current_flags: Seq<bool>) -> bool {
    &&& current_flags.len() == c.rails@.len()
    &&& forall|r: int|
        0 <= r < c.rails@.len() && rail_numbers_rational(#[trigger] c.rails@[r]) ==> current_flags[r] == rail_current_invalid(
            c.rails@[r],
        )
}

/// Outcomes of the waveform checks that agree with the exact decision
/// wherever the waveform's numbers are exact rationals.
pub open spec fn wave_flags_sound(c: Circuit, wave_flags: Seq<bool>) -> bool {
    &&& wave_flags.len() == c.source_stimuli@.len()
    &&& forall|s: int|
        0 <= s < c.source_stimuli@.len() && waveform_numbers_rational(#[trigger] c.source_stimuli@[s].waveform)
            ==> wave_flags[s] == waveform_numbers_invalid(c.source_stimuli@[s].waveform)
}

pub(crate) fn is_non_negative(x: &hyperreal::Real) -> (result: bool)
    ensures
        real_rational_class(*x) ==> result == nonnegative(*x),
{
    let sign = real_sign_fact(x);
    sign == Some(SignFact::Zero) || sign == Some(SignFact::Positive)
}

pub(crate) fn is_strictly_positive(x: &hyperreal::Real) -> (result: bool)
    ensures
        real_rational_class(*x) ==> result == positive(*x),
{
    real_sign_fact(x) == Some(SignFact::Positive)
}

pub(crate) fn is_at_most(a: &hyperreal::Real, b: &hyperreal::Real) -> (result: bool)
    ensures
        real_rational_class(*a) && real_rational_class(*b) ==> result == certified_at_most(*a, *b),
{
    let order = real_compare(a, b);
    order == Some(CmpOutcome::Less) || order == Some(CmpOutcome::Equal)
}

fn times_fail_to_increase(points: &Vec<SourceWaveformPoint>) -> (result: bool)
    ensures
        times_rational(points@) ==> result == times_not_increasing(points@),
{
    let mut i: usize = 0;
    while i < points.len() && i + 1 < points.len()
        invariant
            i <= points@.len(),
            times_rational(points@) ==> forall|j: int| 0 <= j < i && j + 1 < points@.len() ==> #[trigger] real_order(points@[j].time, points@[j + 1].time)
                == Some(CmpOutcome::Less),
        decreases points@.len() - i,
    {
        if real_compare(&points[i].time, &points[i + 1].time) != Some(CmpOutcome::Less) {
            proof {
                if times_rational(points@) {
                    assert(real_rational_class(points@[i as int].time));
                    assert(real_rational_class(points@[i + 1].time));
                    assert(real_order(points@[i as int].time, points@[i + 1].time) != Some(CmpOutcome::Less));
                }
            }
            return true;
        }
        proof {
            if times_rational(points@) {
                assert(real_rational_class(points@[i as int].time));
                assert(real_rational_class(points@[i + 1].time));
            }
        }
        i = i + 1;
    }
    false
}

fn first_component(instances: &Vec<CircuitInstance>, text: &String) -> (found: Option<usize>)
    ensures
        opt_usize(found) == first_component_index(instances@, text@, instances@.len() as int),
        found matches Some(i) ==> i < instances@.len(),
{
    let mut j: usize = 0;
    while j < instances.len()
        invariant
            j <= instances@.len(),
            first_component_index(instances@, text@, j as int) is None,
        decreases instances@.len() - j,
    {
        if crate::identity::same_text(&instances[j].component.0, text) {
            proof {
                lemma_first_component_stable(instances@, text@, j as int + 1, instances@.len() as int);
            }
            return Some(j);
        }
        j = j + 1;
    }
    None
}

proof fn lemma_first_component_stable(instances: Seq<CircuitInstance>, text: Seq<char>, count: int, later: int)
    requires
        0 < count <= later,
        first_component_index(instances, text, count) is Some,
    ensures
        first_component_index(instances, text, later) == first_component_index(instances, text, count),
    decreases later - count,
{
    if later > count {
        lemma_first_component_stable(instances, text, count, later - 1);
    }
}

impl Circuit {
    fn check_stimulus(&self, s: usize, issues: &mut Vec<CircuitValidationIssue>) -> (numbers_invalid: Ghost<bool>)
        requires
            s < self.source_stimuli@.len(),
        ensures
            waveform_numbers_rational(self.source_stimuli@[s as int].waveform) ==> numbers_invalid@ == waveform_numbers_invalid(
                self.source_stimuli@[s as int].waveform,
            ),
            final(issues)@ == old(issues)@ + stimulus_item_issues(*self, s as int, numbers_invalid@),
    {
        let ghost mut flag = false;
        let ghost start = issues@;
        let stimulus = &self.source_stimuli[s];
        let dup = key_repeats(&self.source_stimuli, s);
        push_if(issues, dup, CircuitValidationIssue::DuplicateSourceStimulus(stimulus.component.clone()));
        let ghost after_dup = issues@;
        match &stimulus.waveform {
            SourceWaveform::PiecewiseLinear { points } => {
                push_if(issues, points.len() == 0, CircuitValidationIssue::EmptySourceWaveform(stimulus.component.clone()));
                let unordered = times_fail_to_increase(points);
                proof {
                    flag = unordered;
                }
                push_if(
                    issues,
                    unordered,
                    CircuitValidationIssue::NonIncreasingSourceWaveformTime(stimulus.component.clone()),
                );
            },
            SourceWaveform::Pulse { delay, rise_time, high_time, fall_time, period, .. } => {
                let rise_high = crate::exact::real_add(rise_time, high_time);
                let active_time = crate::exact::real_add(&rise_high, fall_time);
                let invalid = !is_non_negative(delay) || !is_non_negative(rise_time) || !is_non_negative(high_time)
                    || !is_non_negative(fall_time) || !is_strictly_positive(period) || !is_at_most(&active_time, period);
                proof {
                    flag = invalid;
                }
                push_if(issues, invalid, CircuitValidationIssue::InvalidPulseSourceWaveform(stimulus.component.clone()));
            },
            SourceWaveform::Sine { frequency, delay, damping, .. } => {
                let invalid = !is_non_negative(frequency) || !is_non_negative(delay) || !is_non_negative(damping);
                proof {
                    flag = invalid;
                }
                push_if(issues, invalid, CircuitValidationIssue::InvalidSineSourceWaveform(stimulus.component.clone()));
            },
            SourceWaveform::Exponential { rise_delay, rise_time_constant, fall_delay, fall_time_constant, .. } => {
                let invalid = !is_non_negative(rise_delay) || !is_strictly_positive(rise_time_constant) || !is_at_most(
                    rise_delay,
                    fall_delay,
                ) || !is_strictly_positive(fall_time_constant);
                proof {
                    flag = invalid;
                }
                push_if(
                    issues,
                    invalid,
                    CircuitValidationIssue::InvalidExponentialSourceWaveform(stimulus.component.clone()),
                );
            },
            _ => {},
        }
        let ghost after_waveform = issues@;
        match first_component(&self.instances, &stimulus.component.0) {
            None => {
                issues.push(CircuitValidationIssue::UnknownSourceStimulusComponent(stimulus.component.clone()));
            },
            Some(i) => {
                match first_key(&self.device_models, &self.instances[i].model.0) {
                    None => {},
                    Some(m) => {
                        let source = match &self.device_models[m].kind {
                            DeviceModelKind::CurrentSource => true,
                            DeviceModelKind::VoltageSource => true,
                            _ => false,
                        };
                        push_if(
                            issues,
                            !source,
                            CircuitValidationIssue::InvalidSourceStimulusTarget(stimulus.component.clone()),
                        );
                    },
                }
            },
        }
        proof {
            assert(issues@ =~= after_waveform + stimulus_target_issues(*self, *stimulus));
            assert(after_waveform =~= after_dup + waveform_issues_seen(*stimulus, flag));
            assert(issues@ =~= start + stimulus_item_issues(*self, s as int, flag));
        }
        Ghost(flag)
    }

    fn check_stimuli(&self, issues: &mut Vec<CircuitValidationIssue>) -> (wave_flags: Ghost<Seq<bool>>)
        ensures
            wave_flags_sound(*self, wave_flags@),
            final(issues)@ == old(issues)@ + concat_upto(stimulus_issues_seen(*self, wave_flags@), self.source_stimuli@.len() as int),
    {
        let ghost start = issues@;
        let ghost mut flags: Seq<bool> = Seq::empty();
        let mut s: usize = 0;
        while s < self.source_stimuli.len()
            invariant
                s <= self.source_stimuli@.len(),
                flags.len() == s,
                forall|i: int|
                    0 <= i < s && waveform_numbers_rational(#[trigger] self.source_stimuli@[i].waveform) ==> flags[i]
                        == waveform_numbers_invalid(self.source_stimuli@[i].waveform),
                issues@ == start + concat_upto(stimulus_issues_seen(*self, flags), s as int),
            decreases self.source_stimuli@.len() - s,
        {
            let flag = self.check_stimulus(s, issues);
            proof {
                let old_flags = flags;
                flags = flags.push(flag@);
                assert forall|i: int| 0 <= i < s implies #[trigger] stimulus_issues_seen(*self, flags)(i)
                    == stimulus_issues_seen(*self, old_flags)(i) by {
                    assert(flags[i] == old_flags[i]);
                }
                lemma_concat_agree(stimulus_issues_seen(*self, flags), stimulus_issues_seen(*self, old_flags), s as int);
            }
            s = s + 1;
            proof {
                assert(issues@ =~= start + concat_upto(stimulus_issues_seen(*self, flags), s as int));
            }
        }
        Ghost(flags)
    }
}


// ---------------------------------------------------------------------------
// Child circuits, module parameters and stamps.
// ---------------------------------------------------------------------------

/// Unicode `White_Space`, the property by which `str::trim` removes
/// characters.
pub open spec fn unicode_white_space(c: char) -> bool {
    let v = c as u32;
    ||| 0x9 <= v <= 0xd
    ||| v == 0x20 || v == 0x85 || v == 0xa0 || v == 0x1680
    ||| 0x2000 <= v <= 0x200a
    ||| v == 0x2028 || v == 0x2029 || v == 0x202f || v == 0x205f || v == 0x3000
}

/// The text without its leading white space.
pub open spec fn without_leading_space(text: Seq<char>) -> Seq<char>
    decreases text.len(),
{
    if text.len() > 0 && unicode_white_space(text[0]) {
        without_leading_space(text.drop_first())
    } else {
        text
    }
}

/// The text without its trailing white space.
pub open spec fn without_trailing_space(text: Seq<char>) -> Seq<char>
    decreases text.len(),
{
    if text.len() > 0 && unicode_white_space(text.last()) {
        without_trailing_space(text.drop_last())
    } else {
        text
    }
}

/// The text without leading and trailing white space.
pub open spec fn trimmed_text(text: Seq<char>) -> Seq<char> {
    without_trailing_space(without_leading_space(text))
}

/// A text that is empty or only white space.
pub open spec fn is_blank(text: Seq<char>) -> bool {
    trimmed_text(text).len() == 0
}

/// `str::trim`: its documentation promises the text with leading and
/// trailing Unicode `White_Space` removed.
#[verifier::external_body]
fn trim_text(text: &str) -> (trimmed: &str)
    ensures
        trimmed@ == trimmed_text(text@),
{
    text.trim()
}

pub(crate) fn blank(text: &String) -> (result: bool)
    ensures
        result == is_blank(text@),
{
    trim_text(text.as_str()).is_empty()
}

/// Issues of port binding `b` of a child instance: unknown parent net, repeated port.
pub open spec fn child_port_issues(c: Circuit, child: SubcircuitInstance) -> spec_fn(int) -> Seq<CircuitValidationIssue> {
    |b: int|
        issue_if(
            !has_key(c.nets@, child.ports@[b].net@),
            CircuitValidationIssue::UnknownSubcircuitParentNet { instance: child.id, net: child.ports@[b].net },
        ) + issue_if(
            repeats(child.ports@, b),
            CircuitValidationIssue::DuplicateSubcircuitPortBinding { instance: child.id, port: child.ports@[b].port },
        )
}

/// Issues of override `o` of a child instance: repeated parameter, blank name or source.
pub open spec fn child_override_issues(child: SubcircuitInstance) -> spec_fn(int) -> Seq<CircuitValidationIssue> {
    |o: int|
        issue_if(
            repeats(child.parameter_overrides@, o),
            CircuitValidationIssue::DuplicateSubcircuitParameterOverride {
                instance: child.id,
                parameter: child.parameter_overrides@[o].parameter,
            },
        ) + issue_if(
            is_blank(child.parameter_overrides@[o].parameter@) || is_blank(child.parameter_overrides@[o].source@),
            CircuitValidationIssue::InvalidSubcircuitParameterOverride {
                instance: child.id,
                parameter: child.parameter_overrides@[o].parameter,
            },
        )
}

/// Issues of child instance `k`: repeated identity, port bindings, overrides.
pub open spec fn child_issues(c: Circuit) -> spec_fn(int) -> Seq<CircuitValidationIssue> {
    |k: int|
        issue_if(repeats(c.subcircuits@, k), CircuitValidationIssue::DuplicateSubcircuitInstance(c.subcircuits@[k].id))
            + concat_upto(child_port_issues(c, c.subcircuits@[k]), c.subcircuits@[k].ports@.len() as int)
            + concat_upto(
            child_override_issues(c.subcircuits@[k]),
            c.subcircuits@[k].parameter_overrides@.len() as int,
        )
}

/// Variant tag and texts identifying a module-parameter target.
pub open spec fn target_key(target: CircuitModuleParameterTarget) -> (int, Seq<char>, Seq<char>) {
    match target {
        CircuitModuleParameterTarget::InstanceParameter { instance, parameter } => (0, instance@, parameter@),
        CircuitModuleParameterTarget::ModelParameter { model, parameter } => (1, model@, parameter@),
        CircuitModuleParameterTarget::SubcircuitParameter { instance, parameter } => (2, instance@, parameter@),
    }
}

/// Targets of the first `count` module parameters, in order.
pub open spec fn targets_before(parameters: Seq<CircuitModuleParameter>, count: int) -> Seq<CircuitModuleParameterTarget>
    decreases count,
{
    if count <= 0 {
        Seq::empty()
    } else {
        targets_before(parameters, count - 1) + parameters[count - 1].targets@
    }
}

/// Target `t` of parameter `p` was already claimed by an earlier target.
pub open spec fn target_repeats(parameters: Seq<CircuitModuleParameter>, p: int, t: int) -> bool {
    let seen = targets_before(parameters, p) + parameters[p].targets@.take(t);
    exists|j: int| 0 <= j < seen.len() && #[trigger] target_key(seen[j]) == target_key(parameters[p].targets@[t])
}

/// How a target resolves: `None` when it is forwarded to an existing child
/// instance (not checked here), `Some(None)` when it names nothing, and
/// `Some(Some(existing))` for the existing parameter it controls.
pub open spec fn target_resolution(c: Circuit, target: CircuitModuleParameterTarget) -> Option<Option<crate::model::CircuitParameter>> {
    match target {
        CircuitModuleParameterTarget::InstanceParameter { instance, parameter } => {
            match first_key_index(c.instances@, instance@, c.instances@.len() as int) {
                None => Some(None),
                Some(i) => match first_key_index(c.instances@[i].parameters@, parameter@, c.instances@[i].parameters@.len() as int) {
                    None => Some(None),
                    Some(q) => Some(Some(c.instances@[i].parameters@[q])),
                },
            }
        },
        CircuitModuleParameterTarget::ModelParameter { model, parameter } => {
            match first_key_index(c.device_models@, model@, c.device_models@.len() as int) {
                None => Some(None),
                Some(m) => match first_key_index(
                    c.device_models@[m].parameters@,
                    parameter@,
                    c.device_models@[m].parameters@.len() as int,
                ) {
                    None => Some(None),
                    Some(q) => Some(Some(c.device_models@[m].parameters@[q])),
                },
            }
        },
        CircuitModuleParameterTarget::SubcircuitParameter { instance, .. } => {
            if has_key(c.subcircuits@, instance@) {
                None
            } else {
                Some(None)
            }
        },
    }
}

/// Issues of target `t` of parameter `p`: repeated target, then an unknown
/// target or a unit mismatch with the existing parameter.
pub open spec fn target_issues(c: Circuit, p: int) -> spec_fn(int) -> Seq<CircuitValidationIssue> {
    |t: int|
        issue_if(
            target_repeats(c.module_parameters@, p, t),
            CircuitValidationIssue::DuplicateModuleParameterTarget(c.module_parameters@[p].targets@[t]),
        ) + match target_resolution(c, c.module_parameters@[p].targets@[t]) {
            None => Seq::empty(),
            Some(None) => seq![
                CircuitValidationIssue::UnknownModuleParameterTarget {
                    parameter: c.module_parameters@[p].name,
                    target: c.module_parameters@[p].targets@[t],
                },
            ],
            Some(Some(existing)) => issue_if(
                existing.unit@ != c.module_parameters@[p].unit@,
                CircuitValidationIssue::ModuleParameterUnitMismatch {
                    parameter: c.module_parameters@[p].name,
                    target: c.module_parameters@[p].targets@[t],
                    expected: c.module_parameters@[p].unit,
                    actual: existing.unit,
                },
            ),
        }
}

/// Issues of module parameter `p`: repeated name, blank metadata or no
/// targets, then its targets.
pub open spec fn parameter_issues(c: Circuit) -> spec_fn(int) -> Seq<CircuitValidationIssue> {
    |p: int|
        issue_if(
            repeats(c.module_parameters@, p),
            CircuitValidationIssue::DuplicateModuleParameter(c.module_parameters@[p].name),
        ) + issue_if(
            is_blank(c.module_parameters@[p].name@) || is_blank(c.module_parameters@[p].unit@) || is_blank(
                c.module_parameters@[p].source@,
            ) || c.module_parameters@[p].targets@.len() == 0,
            CircuitValidationIssue::InvalidModuleParameter(c.module_parameters@[p].name),
        ) + concat_upto(target_issues(c, p), c.module_parameters@[p].targets@.len() as int)
}

/// Module-parameter section, then the manual-stamp conflict.
pub open spec fn parameter_section(c: Circuit) -> Seq<CircuitValidationIssue> {
    concat_upto(parameter_issues(c), c.module_parameters@.len() as int) + issue_if(
        c.module_parameters@.len() != 0 && c.stamps@.len() != 0,
        CircuitValidationIssue::ModuleParametersWithManualStamps,
    )
}

/// An unknown-net issue for one optional stamp terminal.
pub open spec fn terminal_issue(c: Circuit, component: crate::identity::ComponentId, terminal: Option<NetId>) -> Seq<CircuitValidationIssue> {
    match terminal {
        Some(net) => issue_if(!has_key(c.nets@, net@), CircuitValidationIssue::UnknownStampNet { component, net }),
        None => Seq::empty(),
    }
}

/// Branch text declared by stamp `j`, if it is a voltage source.
pub open spec fn branch_text_at(stamps: Seq<LinearStamp>, j: int) -> Option<Seq<char>> {
    match stamps[j] {
        LinearStamp::VoltageSource { branch, .. } => Some(branch@),
        _ => None,
    }
}

/// A voltage source before stamp `k` declares branch text `text`.
pub open spec fn branch_declared_before(stamps: Seq<LinearStamp>, k: int, text: Seq<char>) -> bool {
    exists|j: int| 0 <= j < k && #[trigger] branch_text_at(stamps, j) == Some(text)
}

/// The voltage-source branch of stamp `k` was declared by an earlier voltage source.
pub open spec fn branch_repeats(stamps: Seq<LinearStamp>, k: int) -> bool {
    match stamps[k] {
        LinearStamp::VoltageSource { branch, .. } => branch_declared_before(stamps, k, branch@),
        _ => false,
    }
}

/// Some branch of the list has text `text`.
pub open spec fn branch_listed(branches: Seq<BranchId>, text: Seq<char>) -> bool {
    exists|i: int| 0 <= i < branches.len() && #[trigger] branches[i]@ == text
}

/// Issues of stamp `k`: unknown terminal nets in terminal order, then a
/// repeated branch.
pub open spec fn stamp_issues(c: Circuit) -> spec_fn(int) -> Seq<CircuitValidationIssue> {
    |k: int|
        match c.stamps@[k] {
            LinearStamp::Conductance { component, pos, neg, .. } => terminal_issue(c, component, pos) + terminal_issue(c, component, neg),
            LinearStamp::CurrentSource { component, pos, neg, .. } => terminal_issue(c, component, pos) + terminal_issue(c, component, neg),
            LinearStamp::Companion { component, pos, neg, .. } => terminal_issue(c, component, pos) + terminal_issue(c, component, neg),
            LinearStamp::VoltageSource { component, branch, pos, neg, .. } => terminal_issue(c, component, pos)
                + terminal_issue(c, component, neg) + issue_if(
                branch_repeats(c.stamps@, k),
                CircuitValidationIssue::DuplicateStampBranch(branch),
            ),
            LinearStamp::Vccs { component, pos, neg, ctrl_pos, ctrl_neg, .. } => terminal_issue(c, component, pos)
                + terminal_issue(c, component, neg) + terminal_issue(c, component, ctrl_pos) + terminal_issue(
                c,
                component,
                ctrl_neg,
            ),
        }
}

/// Every issue of a circuit, section by section in source order.
pub open spec fn spec_validation_issues(c: Circuit) -> Seq<CircuitValidationIssue> {
    spec_validation_issues_seen(c, exact_rail_flags(c), exact_wave_flags(c))
}

/// Every issue of a circuit, section by section in source order, when
/// `current_flags` and `wave_flags` are the outcomes of the numeric checks of
/// the rails and of the stimuli.
pub open spec fn spec_validation_issues_seen(c: Circuit, current_flags: Seq<bool>, wave_flags: Seq<bool>) -> Seq<CircuitValidationIssue> {
    net_section(c) + concat_upto(bus_issues(c), c.buses@.len() as int) + concat_upto(
        slice_issues(c),
        c.bus_slices@.len() as int,
    ) + concat_upto(rail_issues_seen(c, current_flags), c.rails@.len() as int) + concat_upto(port_issues(c), c.ports@.len() as int)
        + concat_upto(model_issues(c), c.device_models@.len() as int) + concat_upto(
        instance_issues(c),
        c.instances@.len() as int,
    ) + concat_upto(stimulus_issues_seen(c, wave_flags), c.source_stimuli@.len() as int) + concat_upto(
        child_issues(c),
        c.subcircuits@.len() as int,
    ) + parameter_section(c) + concat_upto(stamp_issues(c), c.stamps@.len() as int)
}

fn same_target(a: &CircuitModuleParameterTarget, b: &CircuitModuleParameterTarget) -> (equal: bool)
    ensures
        equal == (target_key(*a) == target_key(*b)),
{
    match (a, b) {
        (
            CircuitModuleParameterTarget::InstanceParameter { instance: i1, parameter: p1 },
            CircuitModuleParameterTarget::InstanceParameter { instance: i2, parameter: p2 },
        ) => i1.same(i2) && crate::identity::same_text(p1, p2),
        (
            CircuitModuleParameterTarget::ModelParameter { model: m1, parameter: p1 },
            CircuitModuleParameterTarget::ModelParameter { model: m2, parameter: p2 },
        ) => m1.same(m2) && crate::identity::same_text(p1, p2),
        (
            CircuitModuleParameterTarget::SubcircuitParameter { instance: i1, parameter: p1 },
            CircuitModuleParameterTarget::SubcircuitParameter { instance: i2, parameter: p2 },
        ) => i1.same(i2) && crate::identity::same_text(p1, p2),
        _ => false,
    }
}

fn seen_target(seen: &Vec<CircuitModuleParameterTarget>, target: &CircuitModuleParameterTarget) -> (found: bool)
    ensures
        found == exists|j: int| 0 <= j < seen@.len() && #[trigger] target_key(seen@[j]) == target_key(*target),
{
    let mut j: usize = 0;
    while j < seen.len()
        invariant
            j <= seen@.len(),
            forall|i: int| 0 <= i < j ==> #[trigger] target_key(seen@[i]) != target_key(*target),
        decreases seen@.len() - j,
    {
        if same_target(&seen[j], target) {
            return true;
        }
        j = j + 1;
    }
    false
}

impl Circuit {
    fn check_child(&self, k: usize, issues: &mut Vec<CircuitValidationIssue>)
        requires
            k < self.subcircuits@.len(),
        ensures
            final(issues)@ == old(issues)@ + (child_issues(*self))(k as int),
    {
        let ghost start = issues@;
        let child = &self.subcircuits[k];
        let dup = key_repeats(&self.subcircuits, k);
        push_if(issues, dup, CircuitValidationIssue::DuplicateSubcircuitInstance(child.id.clone()));
        let ghost after_dup = issues@;
        let mut b: usize = 0;
        while b < child.ports.len()
            invariant
                b <= child.ports@.len(),
                *child == self.subcircuits@[k as int],
                issues@ == after_dup + concat_upto(child_port_issues(*self, *child), b as int),
            decreases child.ports@.len() - b,
        {
            let known = contains_key(&self.nets, &child.ports[b].net.0);
            push_if(
                issues,
                !known,
                CircuitValidationIssue::UnknownSubcircuitParentNet {
                    instance: child.id.clone(),
                    net: child.ports[b].net.clone(),
                },
            );
            let dup_port = key_repeats(&child.ports, b);
            push_if(
                issues,
                dup_port,
                CircuitValidationIssue::DuplicateSubcircuitPortBinding {
                    instance: child.id.clone(),
                    port: child.ports[b].port.clone(),
                },
            );
            b = b + 1;
            proof {
                assert(issues@ =~= after_dup + concat_upto(child_port_issues(*self, *child), b as int));
            }
        }
        let ghost after_ports = issues@;
        let mut o: usize = 0;
        while o < child.parameter_overrides.len()
            invariant
                o <= child.parameter_overrides@.len(),
                *child == self.subcircuits@[k as int],
                issues@ == after_ports + concat_upto(child_override_issues(*child), o as int),
            decreases child.parameter_overrides@.len() - o,
        {
            let entry = &child.parameter_overrides[o];
            let dup_override = key_repeats(&child.parameter_overrides, o);
            push_if(
                issues,
                dup_override,
                CircuitValidationIssue::DuplicateSubcircuitParameterOverride {
                    instance: child.id.clone(),
                    parameter: entry.parameter.clone(),
                },
            );
            let invalid = blank(&entry.parameter) || blank(&entry.source);
            push_if(
                issues,
                invalid,
                CircuitValidationIssue::InvalidSubcircuitParameterOverride {
                    instance: child.id.clone(),
                    parameter: entry.parameter.clone(),
                },
            );
            o = o + 1;
            proof {
                assert(issues@ =~= after_ports + concat_upto(child_override_issues(*child), o as int));
            }
        }
        proof {
            assert(issues@ =~= start + (child_issues(*self))(k as int));
        }
    }

    fn check_children(&self, issues: &mut Vec<CircuitValidationIssue>)
        ensures
            final(issues)@ == old(issues)@ + concat_upto(child_issues(*self), self.subcircuits@.len() as int),
    {
        let ghost start = issues@;
        let mut k: usize = 0;
        while k < self.subcircuits.len()
            invariant
                k <= self.subcircuits@.len(),
                issues@ == start + concat_upto(child_issues(*self), k as int),
            decreases self.subcircuits@.len() - k,
        {
            self.check_child(k, issues);
            k = k + 1;
            proof {
                assert(issues@ =~= start + concat_upto(child_issues(*self), k as int));
            }
        }
    }

    fn resolve_target(&self, target: &CircuitModuleParameterTarget) -> (resolution: Option<Option<&crate::model::CircuitParameter>>)
        ensures
            match target_resolution(*self, *target) {
                None => resolution is None,
                Some(None) => resolution == Some(None::<&crate::model::CircuitParameter>),
                Some(Some(existing)) => resolution matches Some(Some(found)) && *found == existing,
            },
    {
        match target {
            CircuitModuleParameterTarget::InstanceParameter { instance, parameter } => {
                match first_key(&self.instances, &instance.0) {
                    None => Some(None),
                    Some(i) => match first_key(&self.instances[i].parameters, parameter) {
                        None => Some(None),
                        Some(q) => Some(Some(&self.instances[i].parameters[q])),
                    },
                }
            },
            CircuitModuleParameterTarget::ModelParameter { model, parameter } => {
                match first_key(&self.device_models, &model.0) {
                    None => Some(None),
                    Some(m) => match first_key(&self.device_models[m].parameters, parameter) {
                        None => Some(None),
                        Some(q) => Some(Some(&self.device_models[m].parameters[q])),
                    },
                }
            },
            CircuitModuleParameterTarget::SubcircuitParameter { instance, .. } => {
                if contains_key(&self.subcircuits, &instance.0) {
                    None
                } else {
                    Some(None)
                }
            },
        }
    }

    fn check_parameter(&self, p: usize, seen: &mut Vec<CircuitModuleParameterTarget>, issues: &mut Vec<CircuitValidationIssue>)
        requires
            p < self.module_parameters@.len(),
            old(seen)@ == targets_before(self.module_parameters@, p as int),
        ensures
            final(seen)@ == targets_before(self.module_parameters@, p + 1),
            final(issues)@ == old(issues)@ + (parameter_issues(*self))(p as int),
    {
        let ghost start = issues@;
        let parameter = &self.module_parameters[p];
        let dup = key_repeats(&self.module_parameters, p);
        push_if(issues, dup, CircuitValidationIssue::DuplicateModuleParameter(parameter.name.clone()));
        let invalid = blank(&parameter.name) || blank(&parameter.unit) || blank(&parameter.source)
            || parameter.targets.len() == 0;
        push_if(issues, invalid, CircuitValidationIssue::InvalidModuleParameter(parameter.name.clone()));
        let ghost header = issues@;
        let mut t: usize = 0;
        while t < parameter.targets.len()
            invariant
                t <= parameter.targets@.len(),
                *parameter == self.module_parameters@[p as int],
                seen@ == targets_before(self.module_parameters@, p as int) + parameter.targets@.take(t as int),
                issues@ == header + concat_upto(target_issues(*self, p as int), t as int),
            decreases parameter.targets@.len() - t,
        {
            let target = &parameter.targets[t];
            let repeated = seen_target(seen, target);
            push_if(issues, repeated, CircuitValidationIssue::DuplicateModuleParameterTarget(target.clone()));
            seen.push(target.clone());
            match self.resolve_target(target) {
                None => {},
                Some(None) => {
                    issues.push(
                        CircuitValidationIssue::UnknownModuleParameterTarget {
                            parameter: parameter.name.clone(),
                            target: target.clone(),
                        },
                    );
                },
                Some(Some(existing)) => {
                    let mismatch = !crate::identity::same_text(&existing.unit, &parameter.unit);
                    push_if(
                        issues,
                        mismatch,
                        CircuitValidationIssue::ModuleParameterUnitMismatch {
                            parameter: parameter.name.clone(),
                            target: target.clone(),
                            expected: parameter.unit.clone(),
                            actual: existing.unit.clone(),
                        },
                    );
                },
            }
            t = t + 1;
            proof {
                assert(parameter.targets@.take(t as int) =~= parameter.targets@.take(t - 1).push(parameter.targets@[t - 1]));
                assert(issues@ =~= header + concat_upto(target_issues(*self, p as int), t as int));
            }
        }
        proof {
            assert(parameter.targets@.take(t as int) =~= parameter.targets@);
            assert(issues@ =~= start + (parameter_issues(*self))(p as int));
        }
    }

    fn check_parameters(&self, issues: &mut Vec<CircuitValidationIssue>)
        ensures
            final(issues)@ == old(issues)@ + parameter_section(*self),
    {
        let ghost start = issues@;
        let mut seen: Vec<CircuitModuleParameterTarget> = Vec::new();
        let mut p: usize = 0;
        while p < self.module_parameters.len()
            invariant
                p <= self.module_parameters@.len(),
                seen@ == targets_before(self.module_parameters@, p as int),
                issues@ == start + concat_upto(parameter_issues(*self), p as int),
            decreases self.module_parameters@.len() - p,
        {
            self.check_parameter(p, &mut seen, issues);
            p = p + 1;
            proof {
                assert(issues@ =~= start + concat_upto(parameter_issues(*self), p as int));
            }
        }
        push_if(
            issues,
            self.module_parameters.len() != 0 && self.stamps.len() != 0,
            CircuitValidationIssue::ModuleParametersWithManualStamps,
        );
        proof {
            assert(issues@ =~= start + parameter_section(*self));
        }
    }

    fn push_terminal(&self, component: &crate::identity::ComponentId, terminal: &Option<NetId>, issues: &mut Vec<CircuitValidationIssue>)
        ensures
            final(issues)@ == old(issues)@ + terminal_issue(*self, *component, *terminal),
    {
        match terminal {
            Some(net) => {
                let known = contains_key(&self.nets, &net.0);
                push_if(
                    issues,
                    !known,
                    CircuitValidationIssue::UnknownStampNet { component: component.clone(), net: net.clone() },
                );
            },
            None => {
                proof {
                    assert(issues@ =~= old(issues)@ + terminal_issue(*self, *component, *terminal));
                }
            },
        }
    }

    #[verifier::spinoff_prover]
    #[verifier::rlimit(30)]
    fn check_stamps(&self, issues: &mut Vec<CircuitValidationIssue>)
        ensures
            final(issues)@ == old(issues)@ + concat_upto(stamp_issues(*self), self.stamps@.len() as int),
    {
        let ghost start = issues@;
        let mut branches: Vec<BranchId> = Vec::new();
        let mut k: usize = 0;
        while k < self.stamps.len()
            invariant
                k <= self.stamps@.len(),
                branches@ == crate::mna::voltage_branches(self.stamps@.take(k as int)),
                issues@ == start + concat_upto(stamp_issues(*self), k as int),
            decreases self.stamps@.len() - k,
        {
            let ghost before = issues@;
            match &self.stamps[k] {
                LinearStamp::Conductance { component, pos, neg, .. } => {
                    self.push_terminal(component, pos, issues);
                    self.push_terminal(component, neg, issues);
                },
                LinearStamp::CurrentSource { component, pos, neg, .. } => {
                    self.push_terminal(component, pos, issues);
                    self.push_terminal(component, neg, issues);
                },
                LinearStamp::Companion { component, pos, neg, .. } => {
                    self.push_terminal(component, pos, issues);
                    self.push_terminal(component, neg, issues);
                },
                LinearStamp::VoltageSource { component, branch, pos, neg, .. } => {
                    self.push_terminal(component, pos, issues);
                    self.push_terminal(component, neg, issues);
                    let repeated = contains_key_branch(&branches, branch);
                    proof {
                        lemma_branch_seen(self.stamps@, k as int, branch@);
                    }
                    push_if(issues, repeated, CircuitValidationIssue::DuplicateStampBranch(branch.clone()));
                    branches.push(branch.clone());
                },
                LinearStamp::Vccs { component, pos, neg, ctrl_pos, ctrl_neg, .. } => {
                    self.push_terminal(component, pos, issues);
                    self.push_terminal(component, neg, issues);
                    self.push_terminal(component, ctrl_pos, issues);
                    self.push_terminal(component, ctrl_neg, issues);
                },
            }
            proof {
                crate::mna::lemma_voltage_branches_prefix(self.stamps@, k as int);
                assert(issues@ =~= before + (stamp_issues(*self))(k as int));
            }
            k = k + 1;
            proof {
                assert(issues@ =~= start + concat_upto(stamp_issues(*self), k as int));
            }
        }
    }

    /// Validates retained circuit identity, hierarchy boundaries, and connectivity.
    ///
    /// Every issue is reported in deterministic source order (see
    /// `spec_validation_issues`).
    pub fn validate(&self) -> (report: CircuitValidationReport)
        ensures
            exists|current_flags: Seq<bool>, wave_flags: Seq<bool>|
                rail_flags_sound(*self, current_flags) && wave_flags_sound(*self, wave_flags) && report.issues@
                    == spec_validation_issues_seen(*self, current_flags, wave_flags),
            circuit_numbers_rational(*self) ==> report.issues@ == spec_validation_issues(*self),
    {
        let mut issues: Vec<CircuitValidationIssue> = Vec::new();
        self.check_nets(&mut issues);
        self.check_buses(&mut issues);
        self.check_bus_slices(&mut issues);
        let current_flags = self.check_rails(&mut issues);
        self.check_ports(&mut issues);
        self.check_models(&mut issues);
        self.check_instances(&mut issues);
        let wave_flags = self.check_stimuli(&mut issues);
        self.check_children(&mut issues);
        self.check_parameters(&mut issues);
        self.check_stamps(&mut issues);
        proof {
            assert(issues@ =~= spec_validation_issues_seen(*self, current_flags@, wave_flags@));
            if circuit_numbers_rational(*self) {
                assert(current_flags@ =~= exact_rail_flags(*self));
                assert(wave_flags@ =~= exact_wave_flags(*self));
            }
        }
        CircuitValidationReport { issues }
    }
}

fn contains_key_branch(branches: &Vec<BranchId>, branch: &BranchId) -> (found: bool)
    ensures
        found == branch_listed(branches@, branch@),
{
    let mut j: usize = 0;
    while j < branches.len()
        invariant
            j <= branches@.len(),
            forall|i: int| 0 <= i < j ==> #[trigger] branches@[i]@ != branch@,
        decreases branches@.len() - j,
    {
        if branches[j].same(branch) {
            return true;
        }
        j = j + 1;
    }
    false
}

proof fn lemma_branch_seen(stamps: Seq<LinearStamp>, k: int, text: Seq<char>)
    requires
        0 <= k <= stamps.len(),
    ensures
        branch_listed(crate::mna::voltage_branches(stamps.take(k)), text) <==> branch_declared_before(stamps, k, text),
    decreases k,
{
    if k > 0 {
        lemma_branch_seen(stamps, k - 1, text);
        crate::mna::lemma_voltage_branches_prefix(stamps, k - 1);
        let previous = crate::mna::voltage_branches(stamps.take(k - 1));
        let current = crate::mna::voltage_branches(stamps.take(k));
        if branch_listed(current, text) {
            let i = choose|i: int| 0 <= i < current.len() && #[trigger] current[i]@ == text;
            if i < previous.len() {
                assert(current[i] == previous[i]);
                assert(branch_listed(previous, text));
                let j = choose|j: int| 0 <= j < k - 1 && #[trigger] branch_text_at(stamps, j) == Some(text);
                assert(branch_text_at(stamps, j) == Some(text));
            } else {
                assert(branch_text_at(stamps, k - 1) == Some(text));
            }
        }
        if branch_declared_before(stamps, k, text) {
            let j = choose|j: int| 0 <= j < k && #[trigger] branch_text_at(stamps, j) == Some(text);
            if j < k - 1 {
                assert(branch_declared_before(stamps, k - 1, text));
                let i = choose|i: int| 0 <= i < previous.len() && #[trigger] previous[i]@ == text;
                assert(current[i] == previous[i]);
            } else {
                assert(current[previous.len() as int]@ == text);
            }
        }
    }
}


pub(crate) proof fn lemma_contains_left<T>(a: Seq<T>, b: Seq<T>, x: T)
    requires
        a.contains(x),
    ensures
        (a + b).contains(x),
{
    let i = choose|i: int| 0 <= i < a.len() && a[i] == x;
    assert((a + b)[i] == x);
}

pub(crate) proof fn lemma_contains_right<T>(a: Seq<T>, b: Seq<T>, x: T)
    requires
        b.contains(x),
    ensures
        (a + b).contains(x),
{
    let i = choose|i: int| 0 <= i < b.len() && b[i] == x;
    assert((a + b)[a.len() + i] == x);
}

proof fn lemma_concat_agree(
    first: spec_fn(int) -> Seq<CircuitValidationIssue>,
    second: spec_fn(int) -> Seq<CircuitValidationIssue>,
    count: int,
)
    requires
        forall|i: int| 0 <= i < count ==> #[trigger] first(i) == second(i),
    ensures
        concat_upto(first, count) == concat_upto(second, count),
    decreases count,
{
    if count > 0 {
        lemma_concat_agree(first, second, count - 1);
        assert(first(count - 1) == second(count - 1));
    }
}

proof fn lemma_concat_contains(issue_at: spec_fn(int) -> Seq<CircuitValidationIssue>, count: int, k: int, x: CircuitValidationIssue)
    requires
        0 <= k < count,
        issue_at(k).contains(x),
    ensures
        concat_upto(issue_at, count).contains(x),
    decreases count,
{
    if k == count - 1 {
        lemma_contains_right(concat_upto(issue_at, count - 1), issue_at(k), x);
    } else {
        lemma_concat_contains(issue_at, count - 1, k, x);
        lemma_contains_left(concat_upto(issue_at, count - 1), issue_at(count - 1), x);
    }
}

proof fn lemma_last_key_found<T: TextKeyed>(items: Seq<T>, text: Seq<char>, count: int)
    requires
        0 <= count <= items.len(),
    ensures
        last_key_index(items, text, count) matches Some(i) ==> 0 <= i < count && items[i].key_text() == text,
        last_key_index(items, text, count) is None ==> forall|j: int| 0 <= j < count ==> #[trigger] items[j].key_text() != text,
    decreases count,
{
    if count > 0 {
        lemma_last_key_found(items, text, count - 1);
    }
}

/// No two buses of the circuit share an identity.
pub open spec fn bus_ids_distinct(c: Circuit) -> bool {
    forall|i: int, j: int| 0 <= i < j < c.buses@.len() ==> #[trigger] c.buses@[i].id@ != #[trigger] c.buses@[j].id@
}

/// Every bus slice is checked against the bus it names, whatever the outcomes
/// of the numeric rail and waveform checks: a slice naming no bus of the
/// circuit is reported as naming an unknown bus, and, when bus identities are
/// distinct, a slice whose offset and width do not fit the bus it names is
/// reported as an invalid range.
pub proof fn bus_slices_are_checked(c: Circuit, s: int, current_flags: Seq<bool>, wave_flags: Seq<bool>)
    requires
        0 <= s < c.bus_slices@.len(),
    ensures
        !has_key(c.buses@, c.bus_slices@[s].bus@) ==> spec_validation_issues_seen(c, current_flags, wave_flags).contains(
            CircuitValidationIssue::UnknownBusSliceBus { slice: c.bus_slices@[s].id, bus: c.bus_slices@[s].bus },
        ),
        forall|b: int|
            bus_ids_distinct(c) && 0 <= b < c.buses@.len() && #[trigger] c.buses@[b].id@ == c.bus_slices@[s].bus@
                && spec_slice_members(c.bus_slices@[s], c.buses@[b]) is None ==> spec_validation_issues_seen(c, current_flags, wave_flags).contains(
                CircuitValidationIssue::InvalidBusSliceRange(c.bus_slices@[s].id),
            ),
{
    let slice = c.bus_slices@[s];
    let count = c.buses@.len() as int;
    lemma_last_key_found(c.buses@, slice.bus@, count);
    let unknown = CircuitValidationIssue::UnknownBusSliceBus { slice: slice.id, bus: slice.bus };
    let invalid = CircuitValidationIssue::InvalidBusSliceRange(slice.id);
    let issues = (slice_issues(c))(s);
    let dup = issue_if(repeats(c.bus_slices@, s), CircuitValidationIssue::DuplicateBusSlice(slice.id));
    if !has_key(c.buses@, slice.bus@) {
        if let Some(i) = last_key_index(c.buses@, slice.bus@, count) {
            assert(c.buses@[i].key_text() == slice.bus@);
        }
        assert(issues == dup + seq![unknown]);
        assert(issues[dup.len() as int] == unknown);
        report_slice_issue(c, s, current_flags, wave_flags, unknown);
    }
    assert forall|b: int|
        bus_ids_distinct(c) && 0 <= b < c.buses@.len() && #[trigger] c.buses@[b].id@ == slice.bus@
            && spec_slice_members(slice, c.buses@[b]) is None implies spec_validation_issues_seen(c, current_flags, wave_flags).contains(invalid) by {
        assert(c.buses@[b].key_text() == slice.bus@);
        match last_key_index(c.buses@, slice.bus@, count) {
            Some(i) => {
                if i != b {
                    assert(c.buses@[i].id@ == c.buses@[b].id@);
                    if i < b {
                        assert(c.buses@[i].id@ != c.buses@[b].id@);
                    } else {
                        assert(c.buses@[b].id@ != c.buses@[i].id@);
                    }
                }
                assert(issues == dup + seq![invalid]);
                assert(issues[dup.len() as int] == invalid);
                report_slice_issue(c, s, current_flags, wave_flags, invalid);
            },
            None => {
                assert(c.buses@[b].key_text() != slice.bus@);
            },
        }
    }
}

proof fn report_slice_issue(c: Circuit, s: int, current_flags: Seq<bool>, wave_flags: Seq<bool>, x: CircuitValidationIssue)
    requires
        0 <= s < c.bus_slices@.len(),
        (slice_issues(c))(s).contains(x),
    ensures
        spec_validation_issues_seen(c, current_flags, wave_flags).contains(x),
{
    lemma_concat_contains(slice_issues(c), c.bus_slices@.len() as int, s, x);
    let slices = concat_upto(slice_issues(c), c.bus_slices@.len() as int);
    let s2 = net_section(c) + concat_upto(bus_issues(c), c.buses@.len() as int);
    lemma_contains_right(s2, slices, x);
    let s3 = s2 + slices;
    lemma_contains_left(s3, concat_upto(rail_issues_seen(c, current_flags), c.rails@.len() as int), x);
    let s4 = s3 + concat_upto(rail_issues_seen(c, current_flags), c.rails@.len() as int);
    lemma_contains_left(s4, concat_upto(port_issues(c), c.ports@.len() as int), x);
    let s5 = s4 + concat_upto(port_issues(c), c.ports@.len() as int);
    lemma_contains_left(s5, concat_upto(model_issues(c), c.device_models@.len() as int), x);
    let s6 = s5 + concat_upto(model_issues(c), c.device_models@.len() as int);
    lemma_contains_left(s6, concat_upto(instance_issues(c), c.instances@.len() as int), x);
    let s7 = s6 + concat_upto(instance_issues(c), c.instances@.len() as int);
    lemma_contains_left(s7, concat_upto(stimulus_issues_seen(c, wave_flags), c.source_stimuli@.len() as int), x);
    let s8 = s7 + concat_upto(stimulus_issues_seen(c, wave_flags), c.source_stimuli@.len() as int);
    lemma_contains_left(s8, concat_upto(child_issues(c), c.subcircuits@.len() as int), x);
    let s9 = s8 + concat_upto(child_issues(c), c.subcircuits@.len() as int);
    lemma_contains_left(s9, parameter_section(c), x);
    let s10 = s9 + parameter_section(c);
    lemma_contains_left(s10, concat_upto(stamp_issues(c), c.stamps@.len() as int), x);
    assert(s10 + concat_upto(stamp_issues(c), c.stamps@.len() as int) == spec_validation_issues_seen(c, current_flags, wave_flags));
}

proof fn report_instance_issue(c: Circuit, k: int, current_flags: Seq<bool>, wave_flags: Seq<bool>, x: CircuitValidationIssue)
    requires
        0 <= k < c.instances@.len(),
        (instance_issues(c))(k).contains(x),
    ensures
        spec_validation_issues_seen(c, current_flags, wave_flags).contains(x),
{
    lemma_concat_contains(instance_issues(c), c.instances@.len() as int, k, x);
    let s6 = net_section(c) + concat_upto(bus_issues(c), c.buses@.len() as int) + concat_upto(
        slice_issues(c),
        c.bus_slices@.len() as int,
    ) + concat_upto(rail_issues_seen(c, current_flags), c.rails@.len() as int) + concat_upto(port_issues(c), c.ports@.len() as int)
        + concat_upto(model_issues(c), c.device_models@.len() as int);
    let inst = concat_upto(instance_issues(c), c.instances@.len() as int);
    lemma_contains_right(s6, inst, x);
    let s7 = s6 + inst;
    lemma_contains_left(s7, concat_upto(stimulus_issues_seen(c, wave_flags), c.source_stimuli@.len() as int), x);
    let s8 = s7 + concat_upto(stimulus_issues_seen(c, wave_flags), c.source_stimuli@.len() as int);
    lemma_contains_left(s8, concat_upto(child_issues(c), c.subcircuits@.len() as int), x);
    let s9 = s8 + concat_upto(child_issues(c), c.subcircuits@.len() as int);
    lemma_contains_left(s9, parameter_section(c), x);
    let s10 = s9 + parameter_section(c);
    lemma_contains_left(s10, concat_upto(stamp_issues(c), c.stamps@.len() as int), x);
    assert(s10 + concat_upto(stamp_issues(c), c.stamps@.len() as int) == spec_validation_issues_seen(c, current_flags, wave_flags));
}

proof fn lemma_concat_found(issue_at: spec_fn(int) -> Seq<CircuitValidationIssue>, count: int, x: CircuitValidationIssue)
    requires
        concat_upto(issue_at, count).contains(x),
    ensures
        exists|k: int| 0 <= k < count && #[trigger] issue_at(k).contains(x),
    decreases count,
{
    if count > 0 {
        let front = concat_upto(issue_at, count - 1);
        let back = issue_at(count - 1);
        let i = choose|i: int| 0 <= i < (front + back).len() && (front + back)[i] == x;
        if i < front.len() {
            assert(front[i] == x);
            lemma_concat_found(issue_at, count - 1, x);
        } else {
            assert(back[i - front.len()] == x);
            assert(issue_at(count - 1).contains(x));
        }
    }
}

proof fn lemma_first_model(c: Circuit, k: int, mi: int, count: int)
    requires
        0 <= k < c.instances@.len(),
        0 <= mi < count <= c.device_models@.len(),
        c.device_models@[mi].id@ == c.instances@[k].model@,
        forall|j: int| 0 <= j < mi ==> #[trigger] c.device_models@[j].id@ != c.instances@[k].model@,
    ensures
        first_key_index(c.device_models@, c.instances@[k].model@, count) == Some(mi),
    decreases count,
{
    if count - 1 > mi {
        lemma_first_model(c, k, mi, count - 1);
    } else {
        lemma_first_key_found(c.device_models@, c.instances@[k].model@, mi);
        if let Some(i) = first_key_index(c.device_models@, c.instances@[k].model@, mi) {
            assert(c.device_models@[i].id@ != c.instances@[k].model@);
        }
    }
}

/// Required pins are enforced per instance, whatever the numeric outcomes:
/// for an instance whose model is found (the first model with that id), a
/// model pin that is not optional and that no binding of the instance names
/// is reported as a missing required pin; a pin name that only optional pins
/// of the model carry is never reported missing for the instance.
pub proof fn required_pins_are_checked(
    c: Circuit,
    k: int,
    mi: int,
    q: int,
    current_flags: Seq<bool>,
    wave_flags: Seq<bool>,
)
    requires
        0 <= k < c.instances@.len(),
        0 <= mi < c.device_models@.len(),
        0 <= q < c.device_models@[mi].pins@.len(),
        c.device_models@[mi].id@ == c.instances@[k].model@,
        forall|j: int| 0 <= j < mi ==> #[trigger] c.device_models@[j].id@ != c.instances@[k].model@,
    ensures
        !c.device_models@[mi].pins@[q].optional && (forall|b: int|
            0 <= b < c.instances@[k].pins@.len() ==> #[trigger] c.instances@[k].pins@[b].pin@
                != c.device_models@[mi].pins@[q].pin@) ==> spec_validation_issues_seen(c, current_flags, wave_flags).contains(
            CircuitValidationIssue::MissingRequiredInstancePin {
                instance: c.instances@[k].id,
                pin: c.device_models@[mi].pins@[q].pin,
            },
        ),
        (forall|q2: int|
            0 <= q2 < c.device_models@[mi].pins@.len() && #[trigger] c.device_models@[mi].pins@[q2].pin
                == c.device_models@[mi].pins@[q].pin ==> c.device_models@[mi].pins@[q2].optional) ==> !(instance_issues(c))(k).contains(
            CircuitValidationIssue::MissingRequiredInstancePin {
                instance: c.instances@[k].id,
                pin: c.device_models@[mi].pins@[q].pin,
            },
        ),
{
    let instance = c.instances@[k];
    let model = c.device_models@[mi];
    let pin = model.pins@[q];
    let x = CircuitValidationIssue::MissingRequiredInstancePin { instance: instance.id, pin: pin.pin };
    lemma_first_model(c, k, mi, c.device_models@.len() as int);
    assert(instance_model(c, instance) == Some(mi));
    let required = concat_upto(required_pin_issues(instance, model), model.pins@.len() as int);
    let head = issue_if(repeats(c.instances@, k), CircuitValidationIssue::DuplicateInstance(instance.id)) + issue_if(
        component_repeats(c.instances@, k),
        CircuitValidationIssue::DuplicateComponent(instance.component),
    ) + issue_if(
        !has_key(c.device_models@, instance.model@),
        CircuitValidationIssue::UnknownInstanceModel { instance: instance.id, model: instance.model },
    ) + concat_upto(binding_issues(c, instance), instance.pins@.len() as int);
    assert((instance_issues(c))(k) == head + required);
    if !pin.optional && (forall|b: int| 0 <= b < instance.pins@.len() ==> #[trigger] instance.pins@[b].pin@ != pin.pin@) {
        assert(!has_key(instance.pins@, pin.pin@)) by {
            if has_key(instance.pins@, pin.pin@) {
                let b = choose|b: int| 0 <= b < instance.pins@.len() && #[trigger] instance.pins@[b].key_text() == pin.pin@;
                assert(instance.pins@[b].pin@ != pin.pin@);
            }
        }
        assert((required_pin_issues(instance, model))(q) == seq![x]);
        assert((required_pin_issues(instance, model))(q)[0] == x);
        lemma_concat_contains(required_pin_issues(instance, model), model.pins@.len() as int, q, x);
        lemma_contains_right(head, required, x);
        report_instance_issue(c, k, current_flags, wave_flags, x);
    }
    if forall|q2: int|
        0 <= q2 < model.pins@.len() && #[trigger] model.pins@[q2].pin == pin.pin ==> model.pins@[q2].optional {
        if (instance_issues(c))(k).contains(x) {
            let i = choose|i: int| 0 <= i < (head + required).len() && (head + required)[i] == x;
            if i < head.len() {
                let h3 = issue_if(repeats(c.instances@, k), CircuitValidationIssue::DuplicateInstance(instance.id)) + issue_if(
                    component_repeats(c.instances@, k),
                    CircuitValidationIssue::DuplicateComponent(instance.component),
                ) + issue_if(
                    !has_key(c.device_models@, instance.model@),
                    CircuitValidationIssue::UnknownInstanceModel { instance: instance.id, model: instance.model },
                );
                let bindings = concat_upto(binding_issues(c, instance), instance.pins@.len() as int);
                assert(head == h3 + bindings);
                if i < h3.len() {
                    assert(h3[i] == x);
                } else {
                    assert(bindings[i - h3.len()] == x);
                    assert(bindings.contains(x));
                    lemma_concat_found(binding_issues(c, instance), instance.pins@.len() as int, x);
                    let b = choose|b: int| 0 <= b < instance.pins@.len() && #[trigger] (binding_issues(c, instance))(b).contains(x);
                    let bi = (binding_issues(c, instance))(b);
                    let j = choose|j: int| 0 <= j < bi.len() && bi[j] == x;
                }
            } else {
                assert(required[i - head.len()] == x);
                assert(required.contains(x));
                lemma_concat_found(required_pin_issues(instance, model), model.pins@.len() as int, x);
                let q2 = choose|q2: int| 0 <= q2 < model.pins@.len() && #[trigger] (required_pin_issues(instance, model))(q2).contains(x);
                let ri = (required_pin_issues(instance, model))(q2);
                let j = choose|j: int| 0 <= j < ri.len() && ri[j] == x;
                assert(model.pins@[q2].pin == pin.pin);
            }
        }
    }
}
} // verus!
