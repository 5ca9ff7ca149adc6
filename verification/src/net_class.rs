//! Net-class inheritance: each class inherits every policy field it leaves
//! unspecified from its base class, transitively, with base-to-derived
//! provenance.

use hyperreal::Real;
use vstd::prelude::*;

use crate::identity::{NetClassId, NetId, ViaStyleId};
use crate::layout::{NetClass, NetClassResolutionError, PcbDesignRules, ResolvedNetClass};
use crate::validation::{TextKeyed, first_key, first_key_index, key_repeats, repeats};

verus! {

impl TextKeyed for NetClass {
    open spec fn key_text(&self) -> Seq<char> {
        self.id@
    }

    fn key(&self) -> (key: &String) {
        &self.id.0
    }
}

/// Index of the class declared with identity `id` (its first declaration).
pub open spec fn class_index(classes: Seq<NetClass>, id: Seq<char>) -> Option<int> {
    first_key_index(classes, id, classes.len() as int)
}

/// Outcome of following base classes from class `at`, having already passed
/// through the classes in `visited`: a class met twice closes a cycle, a base
/// identity that no class declares is unknown, and a class without a base
/// ends the walk. Starting with as many steps as there are classes, the walk
/// always ends before its steps run out.
pub open spec fn class_walk(
    classes: Seq<NetClass>,
    at: int,
    visited: Seq<int>,
    fuel: nat,
) -> Result<(), NetClassResolutionError>
    decreases fuel,
{
    if visited.contains(at) || fuel == 0 {
        Err(NetClassResolutionError::InheritanceCycle(classes[at].id))
    } else {
        match classes[at].parent {
            None => Ok(()),
            Some(parent) => match class_index(classes, parent@) {
                None => Err(NetClassResolutionError::UnknownParent { class: classes[at].id, parent }),
                Some(j) => class_walk(classes, j, visited.push(at), (fuel - 1) as nat),
            },
        }
    }
}

/// Outcome of the inheritance walk from class `k`.
pub open spec fn walk_from(classes: Seq<NetClass>, k: int) -> Result<(), NetClassResolutionError> {
    class_walk(classes, k, Seq::empty(), classes.len())
}

/// Index of the first of the first `count` classes that repeats an earlier identity.
pub open spec fn first_repeated_class(classes: Seq<NetClass>, count: int) -> Option<int>
    decreases count,
{
    if count <= 0 {
        None
    } else {
        match first_repeated_class(classes, count - 1) {
            Some(k) => Some(k),
            None => if repeats(classes, count - 1) {
                Some(count - 1)
            } else {
                None
            },
        }
    }
}

proof fn lemma_first_repeated_stable(classes: Seq<NetClass>, count: int, later: int)
    requires
        0 < count <= later,
        first_repeated_class(classes, count) is Some,
    ensures
        first_repeated_class(classes, later) == first_repeated_class(classes, count),
    decreases later - count,
{
    if later > count {
        lemma_first_repeated_stable(classes, count, later - 1);
    }
}

/// Failure of the first of the first `count` classes whose walk fails.
pub open spec fn first_failed_walk(classes: Seq<NetClass>, count: int) -> Option<NetClassResolutionError>
    decreases count,
{
    if count <= 0 {
        None
    } else {
        match first_failed_walk(classes, count - 1) {
            Some(e) => Some(e),
            None => match walk_from(classes, count - 1) {
                Err(e) => Some(e),
                Ok(()) => None,
            },
        }
    }
}

proof fn lemma_first_failed_stable(classes: Seq<NetClass>, count: int, later: int)
    requires
        0 < count <= later,
        first_failed_walk(classes, count) is Some,
    ensures
        first_failed_walk(classes, later) == first_failed_walk(classes, count),
    decreases later - count,
{
    if later > count {
        lemma_first_failed_stable(classes, count, later - 1);
    }
}

/// Why the classes do not resolve: the first repeated identity, else the
/// failure of the first class (in source order) whose inheritance walk fails.
pub open spec fn net_class_resolution_error(classes: Seq<NetClass>) -> Option<NetClassResolutionError> {
    match first_repeated_class(classes, classes.len() as int) {
        Some(k) => Some(NetClassResolutionError::DuplicateClass(classes[k].id)),
        None => first_failed_walk(classes, classes.len() as int),
    }
}

/// Index of the base class of class `k`, when it declares one that exists.
pub open spec fn base_index(classes: Seq<NetClass>, k: int) -> Option<int> {
    match classes[k].parent {
        None => None,
        Some(parent) => class_index(classes, parent@),
    }
}

/// Effective value of one policy field of class `k`: its own value, else
/// the effective value of its base class (following at most `fuel` bases).
pub open spec fn inherited<T>(
    classes: Seq<NetClass>,
    k: int,
    fuel: nat,
    own: spec_fn(NetClass) -> Option<T>,
) -> Option<T>
    decreases fuel,
{
    match own(classes[k]) {
        Some(value) => Some(value),
        None => if fuel == 0 {
            None
        } else {
            match base_index(classes, k) {
                None => None,
                Some(j) => inherited(classes, j, (fuel - 1) as nat, own),
            }
        },
    }
}

/// Base-to-derived identities of the inheritance chain of class `k`.
pub open spec fn lineage_of(classes: Seq<NetClass>, k: int, fuel: nat) -> Seq<NetClassId>
    decreases fuel,
{
    let base = if fuel == 0 {
        Seq::empty()
    } else {
        match base_index(classes, k) {
            None => Seq::empty(),
            Some(j) => lineage_of(classes, j, (fuel - 1) as nat),
        }
    };
    base.push(classes[k].id)
}

/// Whether class `k` or any class it inherits from requires a reference plane.
pub open spec fn needs_reference_plane(classes: Seq<NetClass>, k: int, fuel: nat) -> bool
    decreases fuel,
{
    classes[k].requires_reference_plane || (fuel > 0 && match base_index(classes, k) {
        None => false,
        Some(j) => needs_reference_plane(classes, j, (fuel - 1) as nat),
    })
}

/// `r` is the effective policy of class `k`, following at most `fuel` bases.
pub open spec fn resolves_within(classes: Seq<NetClass>, k: int, fuel: nat, r: ResolvedNetClass) -> bool {
    &&& r.id == classes[k].id
    &&& r.lineage@ == lineage_of(classes, k, fuel)
    &&& r.nets@ == classes[k].nets@
    &&& r.min_trace_width == inherited(classes, k, fuel, |c: NetClass| c.min_trace_width)
    &&& r.preferred_trace_width == inherited(classes, k, fuel, |c: NetClass| c.preferred_trace_width)
    &&& r.min_clearance == inherited(classes, k, fuel, |c: NetClass| c.min_clearance)
    &&& r.preferred_via_land_diameter == inherited(
        classes,
        k,
        fuel,
        |c: NetClass| c.preferred_via_land_diameter,
    )
    &&& r.preferred_via_drill_diameter == inherited(
        classes,
        k,
        fuel,
        |c: NetClass| c.preferred_via_drill_diameter,
    )
    &&& r.preferred_via_style == inherited(classes, k, fuel, |c: NetClass| c.preferred_via_style)
    &&& r.max_length == inherited(classes, k, fuel, |c: NetClass| c.max_length)
    &&& r.max_via_count == inherited(classes, k, fuel, |c: NetClass| c.max_via_count)
    &&& r.target_impedance_ohms == inherited(classes, k, fuel, |c: NetClass| c.target_impedance_ohms)
    &&& r.impedance_tolerance_ohms == inherited(
        classes,
        k,
        fuel,
        |c: NetClass| c.impedance_tolerance_ohms,
    )
    &&& r.requires_reference_plane == needs_reference_plane(classes, k, fuel)
}

/// `r` is the effective policy of class `k`.
pub open spec fn resolves_to(classes: Seq<NetClass>, k: int, r: ResolvedNetClass) -> bool {
    resolves_within(classes, k, classes.len(), r)
}

fn copy_real(value: &Option<Real>) -> (copy: Option<Real>)
    ensures
        copy == *value,
{
    match value {
        Some(v) => Some(v.clone()),
        None => None,
    }
}

fn own_or_base(own: &Option<Real>, base: &Option<Real>) -> (value: Option<Real>)
    ensures
        value == match *own {
            Some(v) => Some(v),
            None => *base,
        },
{
    match own {
        Some(v) => Some(v.clone()),
        None => copy_real(base),
    }
}

/// One inheritable field: the class's own value, else the base's effective value.
fn inherit_field(own: &Option<Real>, base: Option<&Option<Real>>) -> (value: Option<Real>)
    ensures
        value == match *own {
            Some(v) => Some(v),
            None => match base {
                Some(b) => *b,
                None => None,
            },
        },
{
    match base {
        Some(b) => own_or_base(own, b),
        None => copy_real(own),
    }
}

fn copy_ids(ids: &Vec<NetClassId>) -> (copy: Vec<NetClassId>)
    ensures
        copy@ == ids@,
{
    let mut copy: Vec<NetClassId> = Vec::new();
    let mut i: usize = 0;
    while i < ids.len()
        invariant
            i <= ids@.len(),
            copy@ == ids@.take(i as int),
        decreases ids.len() - i,
    {
        copy.push(ids[i].clone());
        i = i + 1;
        proof {
            assert(copy@ =~= ids@.take(i as int));
        }
    }
    proof {
        assert(ids@.take(i as int) =~= ids@);
    }
    copy
}

fn copy_nets(nets: &Vec<NetId>) -> (copy: Vec<NetId>)
    ensures
        copy@ == nets@,
{
    let mut copy: Vec<NetId> = Vec::new();
    let mut i: usize = 0;
    while i < nets.len()
        invariant
            i <= nets@.len(),
            copy@ == nets@.take(i as int),
        decreases nets.len() - i,
    {
        copy.push(nets[i].clone());
        i = i + 1;
        proof {
            assert(copy@ =~= nets@.take(i as int));
        }
    }
    proof {
        assert(nets@.take(i as int) =~= nets@);
    }
    copy
}

/// Effective policy of class `k` following at most `fuel` bases.
fn resolve_net_class(classes: &Vec<NetClass>, k: usize, fuel: usize) -> (resolved: ResolvedNetClass)
    requires
        k < classes@.len(),
    ensures
        resolves_within(classes@, k as int, fuel as nat, resolved),
    decreases fuel,
{
    let ghost g = classes@;
    let ghost gk = k as int;
    let ghost gf = fuel as nat;
    let ghost bj: Option<int> = if fuel > 0 {
        base_index(g, gk)
    } else {
        None
    };
    let class = &classes[k];
    let mut base: Option<ResolvedNetClass> = None;
    if fuel > 0 {
        if let Some(parent) = &class.parent {
            let found = first_key(classes, &parent.0);
            proof {
                assert(parent.0@ == parent@);
            }
            if let Some(j) = found {
                base = Some(resolve_net_class(classes, j, fuel - 1));
            }
        }
    }
    assert(match bj {
        Some(j) => base matches Some(b) && resolves_within(g, j, (gf - 1) as nat, b),
        None => base is None,
    });
    let mut lineage: Vec<NetClassId> = match &base {
        Some(b) => copy_ids(&b.lineage),
        None => Vec::new(),
    };
    lineage.push(class.id.clone());
    let preferred_via_style: Option<ViaStyleId> = match &class.preferred_via_style {
        Some(style) => Some(style.clone()),
        None => match &base {
            Some(b) => match &b.preferred_via_style {
                Some(style) => Some(style.clone()),
                None => None,
            },
            None => None,
        },
    };
    let max_via_count: Option<usize> = match class.max_via_count {
        Some(count) => Some(count),
        None => match &base {
            Some(b) => b.max_via_count,
            None => None,
        },
    };
    let base_plane = match &base {
        Some(b) => b.requires_reference_plane,
        None => false,
    };
    let (min_trace_width, preferred_trace_width, min_clearance, land, drill, max_length, target, tolerance) = match &base {
        Some(b) => (
            inherit_field(&class.min_trace_width, Some(&b.min_trace_width)),
            inherit_field(&class.preferred_trace_width, Some(&b.preferred_trace_width)),
            inherit_field(&class.min_clearance, Some(&b.min_clearance)),
            inherit_field(&class.preferred_via_land_diameter, Some(&b.preferred_via_land_diameter)),
            inherit_field(&class.preferred_via_drill_diameter, Some(&b.preferred_via_drill_diameter)),
            inherit_field(&class.max_length, Some(&b.max_length)),
            inherit_field(&class.target_impedance_ohms, Some(&b.target_impedance_ohms)),
            inherit_field(&class.impedance_tolerance_ohms, Some(&b.impedance_tolerance_ohms)),
        ),
        None => (
            inherit_field(&class.min_trace_width, None),
            inherit_field(&class.preferred_trace_width, None),
            inherit_field(&class.min_clearance, None),
            inherit_field(&class.preferred_via_land_diameter, None),
            inherit_field(&class.preferred_via_drill_diameter, None),
            inherit_field(&class.max_length, None),
            inherit_field(&class.target_impedance_ohms, None),
            inherit_field(&class.impedance_tolerance_ohms, None),
        ),
    };
    let resolved = ResolvedNetClass {
        id: class.id.clone(),
        lineage,
        nets: copy_nets(&class.nets),
        min_trace_width,
        preferred_trace_width,
        min_clearance,
        preferred_via_land_diameter: land,
        preferred_via_drill_diameter: drill,
        preferred_via_style,
        max_length,
        max_via_count,
        target_impedance_ohms: target,
        impedance_tolerance_ohms: tolerance,
        requires_reference_plane: class.requires_reference_plane || base_plane,
    };
    proof {
        assert(resolved.lineage@ =~= lineage_of(g, gk, gf));
    }
    resolved
}

/// Follows base classes from class `start` (see [`walk_from`]).
fn walk_class(classes: &Vec<NetClass>, start: usize) -> (outcome: Result<(), NetClassResolutionError>)
    requires
        start < classes@.len(),
    ensures
        outcome == walk_from(classes@, start as int),
{
    let n = classes.len();
    let mut at: usize = start;
    let mut visited: Vec<usize> = Vec::new();
    let mut fuel: usize = n;
    proof {
        assert(visited@.map_values(|i: usize| i as int) =~= Seq::<int>::empty());
    }
    loop
        invariant
            n == classes@.len(),
            at < n,
            walk_from(classes@, start as int) == class_walk(
                classes@,
                at as int,
                visited@.map_values(|i: usize| i as int),
                fuel as nat,
            ),
        decreases fuel,
    {
        let ghost seen = visited@.map_values(|i: usize| i as int);
        let mut found = false;
        let mut i: usize = 0;
        while i < visited.len()
            invariant
                i <= visited@.len(),
                seen == visited@.map_values(|i: usize| i as int),
                found <==> exists|j: int| 0 <= j < i && seen[j] == at as int,
            decreases visited.len() - i,
        {
            if visited[i] == at {
                found = true;
                proof {
                    assert(seen[i as int] == at as int);
                }
            }
            i = i + 1;
        }
        if found || fuel == 0 {
            return Err(NetClassResolutionError::InheritanceCycle(classes[at].id.clone()));
        }
        match &classes[at].parent {
            None => {
                return Ok(());
            },
            Some(parent) => {
                proof {
                    assert(parent.0@ == parent@);
                }
                match first_key(classes, &parent.0) {
                    None => {
                        return Err(
                            NetClassResolutionError::UnknownParent {
                                class: classes[at].id.clone(),
                                parent: parent.clone(),
                            },
                        );
                    },
                    Some(j) => {
                        proof {
                            assert(visited@.push(at).map_values(|i: usize| i as int) =~= seen.push(at as int));
                        }
                        visited.push(at);
                        at = j;
                        fuel = fuel - 1;
                    },
                }
            },
        }
    }
}

impl PcbDesignRules {
    /// Resolves every net class in source order with base-to-derived
    /// provenance, or reports why the classes do not resolve (see
    /// [`net_class_resolution_error`]).
    pub fn resolve_net_classes(&self) -> (result: Result<Vec<ResolvedNetClass>, NetClassResolutionError>)
        ensures
            match net_class_resolution_error(self.net_classes@) {
                Some(error) => result == Err::<Vec<ResolvedNetClass>, NetClassResolutionError>(error),
                None => result matches Ok(resolved) && resolved@.len() == self.net_classes@.len() && forall|k: int|
                    0 <= k < resolved@.len() ==> resolves_to(self.net_classes@, k, #[trigger] resolved@[k]),
            },
    {
        let classes = &self.net_classes;
        let n = classes.len();
        let mut k: usize = 0;
        while k < n
            invariant
                k <= n == classes@.len(),
                classes@ == self.net_classes@,
                first_repeated_class(classes@, k as int) is None,
            decreases n - k,
        {
            if key_repeats(classes, k) {
                proof {
                    assert(first_repeated_class(classes@, k as int + 1) == Some(k as int));
                    lemma_first_repeated_stable(classes@, k as int + 1, n as int);
                    assert(net_class_resolution_error(self.net_classes@) == Some(
                        NetClassResolutionError::DuplicateClass(classes@[k as int].id),
                    ));
                }
                return Err(NetClassResolutionError::DuplicateClass(classes[k].id.clone()));
            }
            k = k + 1;
        }
        let mut w: usize = 0;
        while w < n
            invariant
                w <= n == classes@.len(),
                classes@ == self.net_classes@,
                first_repeated_class(classes@, n as int) is None,
                first_failed_walk(classes@, w as int) is None,
            decreases n - w,
        {
            match walk_class(classes, w) {
                Err(error) => {
                    proof {
                        assert(first_failed_walk(classes@, w as int + 1) == Some(error));
                        lemma_first_failed_stable(classes@, w as int + 1, n as int);
                        assert(net_class_resolution_error(self.net_classes@) == Some(error));
                    }
                    return Err(error);
                },
                Ok(()) => {},
            }
            w = w + 1;
        }
        let mut resolved: Vec<ResolvedNetClass> = Vec::new();
        let mut r: usize = 0;
        while r < n
            invariant
                r <= n == classes@.len(),
                classes@ == self.net_classes@,
                resolved@.len() == r,
                forall|j: int| 0 <= j < r ==> resolves_to(classes@, j, #[trigger] resolved@[j]),
            decreases n - r,
        {
            resolved.push(resolve_net_class(classes, r, n));
            r = r + 1;
        }
        Ok(resolved)
    }
}


proof fn lemma_walks_succeed(classes: Seq<NetClass>, count: int, k: int)
    requires
        first_failed_walk(classes, count) is None,
        0 <= k < count,
    ensures
        walk_from(classes, k) is Ok,
    decreases count,
{
    if k < count - 1 {
        lemma_walks_succeed(classes, count - 1, k);
    }
}

proof fn lemma_lineage_settled(classes: Seq<NetClass>, k: int, visited: Seq<int>, fuel: nat, first: nat, second: nat)
    requires
        0 <= k < classes.len(),
        class_walk(classes, k, visited, fuel) is Ok,
        first + 1 >= fuel,
        second + 1 >= fuel,
    ensures
        lineage_of(classes, k, first) == lineage_of(classes, k, second),
    decreases fuel,
{
    match base_index(classes, k) {
        None => {},
        Some(j) => {
            let parent = classes[k].parent->0;
            lemma_class_index_found(classes, parent@);
            lemma_lineage_settled(classes, j, visited.push(k), (fuel - 1) as nat, (first - 1) as nat, (second - 1) as nat);
        },
    }
}

proof fn lemma_class_index_found(classes: Seq<NetClass>, id: Seq<char>)
    ensures
        class_index(classes, id) matches Some(j) ==> 0 <= j < classes.len() && classes[j].id@ == id,
{
    crate::validation::lemma_first_key_found(classes, id, classes.len() as int);
}

/// Provenance runs from base to derived: when the classes resolve, a class
/// without a base is its whole lineage, and a derived class's lineage is its
/// base's lineage followed by the class itself.
pub proof fn lineage_extends_base(classes: Seq<NetClass>, resolved: Seq<ResolvedNetClass>, k: int)
    requires
        net_class_resolution_error(classes) is None,
        resolved.len() == classes.len(),
        forall|i: int| 0 <= i < resolved.len() ==> resolves_to(classes, i, #[trigger] resolved[i]),
        0 <= k < classes.len(),
    ensures
        match base_index(classes, k) {
            None => resolved[k].lineage@ == seq![classes[k].id],
            Some(j) => 0 <= j < classes.len() && resolved[k].lineage@ == resolved[j].lineage@.push(classes[k].id),
        },
{
    let n = classes.len();
    assert(resolves_to(classes, k, resolved[k]));
    match base_index(classes, k) {
        None => {
            assert(resolved[k].lineage@ =~= seq![classes[k].id]);
        },
        Some(j) => {
            let parent = classes[k].parent->0;
            lemma_class_index_found(classes, parent@);
            assert(first_repeated_class(classes, n as int) is None);
            lemma_walks_succeed(classes, n as int, k);
            assert(class_walk(classes, j, Seq::<int>::empty().push(k), (n - 1) as nat) is Ok);
            lemma_lineage_settled(classes, j, Seq::<int>::empty().push(k), (n - 1) as nat, (n - 1) as nat, n);
            assert(resolves_to(classes, j, resolved[j]));
        },
    }
}

proof fn lemma_inherited_settled<T>(
    classes: Seq<NetClass>,
    k: int,
    visited: Seq<int>,
    fuel: nat,
    first: nat,
    second: nat,
    own: spec_fn(NetClass) -> Option<T>,
)
    requires
        0 <= k < classes.len(),
        class_walk(classes, k, visited, fuel) is Ok,
        first + 1 >= fuel,
        second + 1 >= fuel,
    ensures
        inherited(classes, k, first, own) == inherited(classes, k, second, own),
    decreases fuel,
{
    match base_index(classes, k) {
        None => {},
        Some(j) => {
            let parent = classes[k].parent->0;
            lemma_class_index_found(classes, parent@);
            if first > 0 && second > 0 {
                lemma_inherited_settled(classes, j, visited.push(k), (fuel - 1) as nat, (first - 1) as nat, (second - 1) as nat, own);
            }
        },
    }
}

proof fn lemma_reference_settled(classes: Seq<NetClass>, k: int, visited: Seq<int>, fuel: nat, first: nat, second: nat)
    requires
        0 <= k < classes.len(),
        class_walk(classes, k, visited, fuel) is Ok,
        first + 1 >= fuel,
        second + 1 >= fuel,
    ensures
        needs_reference_plane(classes, k, first) == needs_reference_plane(classes, k, second),
    decreases fuel,
{
    match base_index(classes, k) {
        None => {},
        Some(j) => {
            let parent = classes[k].parent->0;
            lemma_class_index_found(classes, parent@);
            if first > 0 && second > 0 {
                lemma_reference_settled(classes, j, visited.push(k), (fuel - 1) as nat, (first - 1) as nat, (second - 1) as nat);
            }
        },
    }
}

/// A class's own value of a policy, else the value it falls back to.
pub open spec fn own_else<T>(own: Option<T>, fallback: Option<T>) -> Option<T> {
    match own {
        Some(value) => Some(value),
        None => fallback,
    }
}

/// Every policy of `resolved` is the class's own setting, else the setting
/// of the resolved class `fallback`; a reference plane is required when the
/// class or its fallback requires one.
pub open spec fn policies_fall_back(class: NetClass, resolved: ResolvedNetClass, fallback: ResolvedNetClass) -> bool {
    &&& resolved.min_trace_width == own_else(class.min_trace_width, fallback.min_trace_width)
    &&& resolved.preferred_trace_width == own_else(class.preferred_trace_width, fallback.preferred_trace_width)
    &&& resolved.min_clearance == own_else(class.min_clearance, fallback.min_clearance)
    &&& resolved.preferred_via_land_diameter == own_else(class.preferred_via_land_diameter, fallback.preferred_via_land_diameter)
    &&& resolved.preferred_via_drill_diameter == own_else(class.preferred_via_drill_diameter, fallback.preferred_via_drill_diameter)
    &&& resolved.preferred_via_style == own_else(class.preferred_via_style, fallback.preferred_via_style)
    &&& resolved.max_length == own_else(class.max_length, fallback.max_length)
    &&& resolved.max_via_count == own_else(class.max_via_count, fallback.max_via_count)
    &&& resolved.target_impedance_ohms == own_else(class.target_impedance_ohms, fallback.target_impedance_ohms)
    &&& resolved.impedance_tolerance_ohms == own_else(class.impedance_tolerance_ohms, fallback.impedance_tolerance_ohms)
    &&& resolved.requires_reference_plane == (class.requires_reference_plane || fallback.requires_reference_plane)
}

/// Every policy of `resolved` is exactly the class's own setting.
pub open spec fn policies_own(class: NetClass, resolved: ResolvedNetClass) -> bool {
    &&& resolved.min_trace_width == class.min_trace_width
    &&& resolved.preferred_trace_width == class.preferred_trace_width
    &&& resolved.min_clearance == class.min_clearance
    &&& resolved.preferred_via_land_diameter == class.preferred_via_land_diameter
    &&& resolved.preferred_via_drill_diameter == class.preferred_via_drill_diameter
    &&& resolved.preferred_via_style == class.preferred_via_style
    &&& resolved.max_length == class.max_length
    &&& resolved.max_via_count == class.max_via_count
    &&& resolved.target_impedance_ohms == class.target_impedance_ohms
    &&& resolved.impedance_tolerance_ohms == class.impedance_tolerance_ohms
    &&& resolved.requires_reference_plane == class.requires_reference_plane
}

/// Policies are inherited field by field: when the classes resolve, a class
/// without a base keeps exactly its own settings, and a derived class keeps
/// each setting it makes and takes every setting it leaves open (every policy
/// field alike) from its resolved base class.
pub proof fn policies_inherit_from_base(classes: Seq<NetClass>, resolved: Seq<ResolvedNetClass>, k: int)
    requires
        net_class_resolution_error(classes) is None,
        resolved.len() == classes.len(),
        forall|i: int| 0 <= i < resolved.len() ==> resolves_to(classes, i, #[trigger] resolved[i]),
        0 <= k < classes.len(),
    ensures
        match base_index(classes, k) {
            None => policies_own(classes[k], resolved[k]),
            Some(j) => 0 <= j < classes.len() && policies_fall_back(classes[k], resolved[k], resolved[j]),
        },
{
    let n = classes.len();
    assert(resolves_to(classes, k, resolved[k]));
    match base_index(classes, k) {
        None => {},
        Some(j) => {
            let parent = classes[k].parent->0;
            lemma_class_index_found(classes, parent@);
            assert(first_repeated_class(classes, n as int) is None);
            lemma_walks_succeed(classes, n as int, k);
            assert(class_walk(classes, j, Seq::<int>::empty().push(k), (n - 1) as nat) is Ok);
            assert(resolves_to(classes, j, resolved[j]));
            let w = Seq::<int>::empty().push(k);
            let f = (n - 1) as nat;
            lemma_inherited_settled(classes, j, w, f, f, n, |c: NetClass| c.min_trace_width);
            lemma_inherited_settled(classes, j, w, f, f, n, |c: NetClass| c.preferred_trace_width);
            lemma_inherited_settled(classes, j, w, f, f, n, |c: NetClass| c.min_clearance);
            lemma_inherited_settled(classes, j, w, f, f, n, |c: NetClass| c.preferred_via_land_diameter);
            lemma_inherited_settled(classes, j, w, f, f, n, |c: NetClass| c.preferred_via_drill_diameter);
            lemma_inherited_settled(classes, j, w, f, f, n, |c: NetClass| c.preferred_via_style);
            lemma_inherited_settled(classes, j, w, f, f, n, |c: NetClass| c.max_length);
            lemma_inherited_settled(classes, j, w, f, f, n, |c: NetClass| c.max_via_count);
            lemma_inherited_settled(classes, j, w, f, f, n, |c: NetClass| c.target_impedance_ohms);
            lemma_inherited_settled(classes, j, w, f, f, n, |c: NetClass| c.impedance_tolerance_ohms);
            lemma_reference_settled(classes, j, w, f, f, n);
        },
    }
}
} // verus!
